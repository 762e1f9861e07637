//! Canonical JSON of response programs and of the values inside them.
use vstd::prelude::*;
use crate::json::{
    CanonicalJson, json_str, object, write_str, begin_object, write_member,
    write_member_str, write_member_bytes, end_object, ObjectState, object_open,
};
use crate::contracts::{AtomValueType, AtomSource, SemanticRole, ResponseValueSelector};
use crate::program::{
    ValueProjectionFormat, RequestTemplateMarker, CollectionScalarType, CollectionAggregateOperation,
    ProjectStatusMapping, CustomToolResultProjection, ResponseRenderSegment, CollectionOutputRenderer,
    CollectionProgramStep, ResponseScalarLiteral, ResponseArgument, ResponseAdapterWaveSubcenter,
    ResponseAdapterWaveRoute, ResponseAdapterWaveConsensus, ResponseConsensusVariant,
    ResponseOperation, ResponseProgram,
};

verus! {

impl CanonicalJson for AtomValueType {
    open spec fn json(&self) -> Seq<u8> {
        match self {
            AtomValueType::String => json_str("string"@),
            AtomValueType::Integer => json_str("integer"@),
            AtomValueType::Boolean => json_str("boolean"@),
            AtomValueType::Identifier => json_str("identifier"@),
            AtomValueType::Collection => json_str("collection"@),
        }
    }

    fn write_json(&self, out: &mut Vec<u8>) {
        match self {
            AtomValueType::String => write_str(out, "string"),
            AtomValueType::Integer => write_str(out, "integer"),
            AtomValueType::Boolean => write_str(out, "boolean"),
            AtomValueType::Identifier => write_str(out, "identifier"),
            AtomValueType::Collection => write_str(out, "collection"),
        }
    }
}

impl CanonicalJson for AtomSource {
    open spec fn json(&self) -> Seq<u8> {
        match self {
            AtomSource::Request => json_str("request"@),
            AtomSource::Observation => json_str("observation"@),
            AtomSource::Action => json_str("action"@),
            AtomSource::Outcome => json_str("outcome"@),
        }
    }

    fn write_json(&self, out: &mut Vec<u8>) {
        match self {
            AtomSource::Request => write_str(out, "request"),
            AtomSource::Observation => write_str(out, "observation"),
            AtomSource::Action => write_str(out, "action"),
            AtomSource::Outcome => write_str(out, "outcome"),
        }
    }
}

impl CanonicalJson for SemanticRole {
    open spec fn json(&self) -> Seq<u8> {
        match self {
            SemanticRole::Selector => json_str("selector"@),
            SemanticRole::SourceValue => json_str("source_value"@),
            SemanticRole::TargetValue => json_str("target_value"@),
            SemanticRole::RecordOrCellId => json_str("record_or_cell_id"@),
            SemanticRole::StatusOrResult => json_str("status_or_result"@),
            SemanticRole::ContinuationHandle => json_str("continuation_handle"@),
            SemanticRole::Collection => json_str("collection"@),
            SemanticRole::OrderingKey => json_str("ordering_key"@),
            SemanticRole::FormatTarget => json_str("format_target"@),
        }
    }

    fn write_json(&self, out: &mut Vec<u8>) {
        match self {
            SemanticRole::Selector => write_str(out, "selector"),
            SemanticRole::SourceValue => write_str(out, "source_value"),
            SemanticRole::TargetValue => write_str(out, "target_value"),
            SemanticRole::RecordOrCellId => write_str(out, "record_or_cell_id"),
            SemanticRole::StatusOrResult => write_str(out, "status_or_result"),
            SemanticRole::ContinuationHandle => write_str(out, "continuation_handle"),
            SemanticRole::Collection => write_str(out, "collection"),
            SemanticRole::OrderingKey => write_str(out, "ordering_key"),
            SemanticRole::FormatTarget => write_str(out, "format_target"),
        }
    }
}

impl CanonicalJson for ValueProjectionFormat {
    open spec fn json(&self) -> Seq<u8> {
        match self {
            ValueProjectionFormat::PlainText => json_str("plain_text"@),
            ValueProjectionFormat::CanonicalJson => json_str("canonical_json"@),
        }
    }

    fn write_json(&self, out: &mut Vec<u8>) {
        match self {
            ValueProjectionFormat::PlainText => write_str(out, "plain_text"),
            ValueProjectionFormat::CanonicalJson => write_str(out, "canonical_json"),
        }
    }
}

impl CanonicalJson for RequestTemplateMarker {
    open spec fn json(&self) -> Seq<u8> {
        match self {
            RequestTemplateMarker::BracedValue => json_str("braced_value"@),
            RequestTemplateMarker::BracedResult => json_str("braced_result"@),
            RequestTemplateMarker::BracedCount => json_str("braced_count"@),
            RequestTemplateMarker::BracedStatus => json_str("braced_status"@),
            RequestTemplateMarker::BracedItems => json_str("braced_items"@),
            RequestTemplateMarker::DoubleBracedValue => json_str("double_braced_value"@),
            RequestTemplateMarker::AngleValue => json_str("angle_value"@),
            RequestTemplateMarker::AngleResult => json_str("angle_result"@),
            RequestTemplateMarker::PercentS => json_str("percent_s"@),
        }
    }

    fn write_json(&self, out: &mut Vec<u8>) {
        match self {
            RequestTemplateMarker::BracedValue => write_str(out, "braced_value"),
            RequestTemplateMarker::BracedResult => write_str(out, "braced_result"),
            RequestTemplateMarker::BracedCount => write_str(out, "braced_count"),
            RequestTemplateMarker::BracedStatus => write_str(out, "braced_status"),
            RequestTemplateMarker::BracedItems => write_str(out, "braced_items"),
            RequestTemplateMarker::DoubleBracedValue => write_str(out, "double_braced_value"),
            RequestTemplateMarker::AngleValue => write_str(out, "angle_value"),
            RequestTemplateMarker::AngleResult => write_str(out, "angle_result"),
            RequestTemplateMarker::PercentS => write_str(out, "percent_s"),
        }
    }
}

impl CanonicalJson for CollectionScalarType {
    open spec fn json(&self) -> Seq<u8> {
        match self {
            CollectionScalarType::String => json_str("string"@),
            CollectionScalarType::Integer => json_str("integer"@),
            CollectionScalarType::Boolean => json_str("boolean"@),
        }
    }

    fn write_json(&self, out: &mut Vec<u8>) {
        match self {
            CollectionScalarType::String => write_str(out, "string"),
            CollectionScalarType::Integer => write_str(out, "integer"),
            CollectionScalarType::Boolean => write_str(out, "boolean"),
        }
    }
}

impl CanonicalJson for CollectionAggregateOperation {
    open spec fn json(&self) -> Seq<u8> {
        match self {
            CollectionAggregateOperation::Sum => json_str("sum"@),
            CollectionAggregateOperation::Min => json_str("min"@),
            CollectionAggregateOperation::Max => json_str("max"@),
        }
    }

    fn write_json(&self, out: &mut Vec<u8>) {
        match self {
            CollectionAggregateOperation::Sum => write_str(out, "sum"),
            CollectionAggregateOperation::Min => write_str(out, "min"),
            CollectionAggregateOperation::Max => write_str(out, "max"),
        }
    }
}

impl CanonicalJson for ProjectStatusMapping {
    open spec fn json(&self) -> Seq<u8> {
        match self {
            ProjectStatusMapping::ZeroIsSuccess => json_str("zero_is_success"@),
            ProjectStatusMapping::ZeroIsPass => json_str("zero_is_pass"@),
            ProjectStatusMapping::ZeroIsOk => json_str("zero_is_ok"@),
            ProjectStatusMapping::ZeroIsTrue => json_str("zero_is_true"@),
        }
    }

    fn write_json(&self, out: &mut Vec<u8>) {
        match self {
            ProjectStatusMapping::ZeroIsSuccess => write_str(out, "zero_is_success"),
            ProjectStatusMapping::ZeroIsPass => write_str(out, "zero_is_pass"),
            ProjectStatusMapping::ZeroIsOk => write_str(out, "zero_is_ok"),
            ProjectStatusMapping::ZeroIsTrue => write_str(out, "zero_is_true"),
        }
    }
}

/// The members of the canonical JSON object of a value.
pub open spec fn selector_fields(x: ResponseValueSelector) -> Seq<(Seq<char>, Seq<u8>)> {
    match x {
        ResponseValueSelector::ContinuationHandle { value_type } => seq![("kind"@, json_str("continuation_handle"@))].push(("value_type"@, value_type.json())),
        ResponseValueSelector::UniqueScalar { value_type } => seq![("kind"@, json_str("unique_scalar"@))].push(("value_type"@, value_type.json())),
        ResponseValueSelector::UniqueTurnScalar { value_type } => seq![("kind"@, json_str("unique_turn_scalar"@))].push(("value_type"@, value_type.json())),
        ResponseValueSelector::ContentLinePrefix { prefix, value_type } => seq![("kind"@, json_str("content_line_prefix"@))].push(("prefix"@, prefix.json())).push(("value_type"@, value_type.json())),
        ResponseValueSelector::JsonField { field, value_type } => seq![("field"@, field.json())].push(("kind"@, json_str("json_field"@))).push(("value_type"@, value_type.json())),
        ResponseValueSelector::JsonScalarOrdinal { ordinal, value_type } => seq![("kind"@, json_str("json_scalar_ordinal"@))].push(("ordinal"@, ordinal.json())).push(("value_type"@, value_type.json())),
        ResponseValueSelector::UniqueTurnJsonField { field, value_type } => seq![("field"@, field.json())].push(("kind"@, json_str("unique_turn_json_field"@))).push(("value_type"@, value_type.json())),
        ResponseValueSelector::UniqueActiveTurnJsonField { field, value_type } => seq![("field"@, field.json())].push(("kind"@, json_str("unique_active_turn_json_field"@))).push(("value_type"@, value_type.json())),
        ResponseValueSelector::RequestReferencedJsonField { value_type } => seq![("kind"@, json_str("request_referenced_json_field"@))].push(("value_type"@, value_type.json())),
        ResponseValueSelector::RequestReferencedJsonFieldOrdinal { ordinal, value_type } => seq![("kind"@, json_str("request_referenced_json_field_ordinal"@))].push(("ordinal"@, ordinal.json())).push(("value_type"@, value_type.json())),
        ResponseValueSelector::TurnOutputLine { output_ordinal, line_index, value_type } => seq![("kind"@, json_str("turn_output_line"@))].push(("line_index"@, line_index.json())).push(("output_ordinal"@, output_ordinal.json())).push(("value_type"@, value_type.json())),
        ResponseValueSelector::TurnOutputScalarOrdinal { output_ordinal, scalar_ordinal, value_type } => seq![("kind"@, json_str("turn_output_scalar_ordinal"@))].push(("output_ordinal"@, output_ordinal.json())).push(("scalar_ordinal"@, scalar_ordinal.json())).push(("value_type"@, value_type.json())),
        ResponseValueSelector::LatestTurnOutputLine { line_index, value_type } => seq![("kind"@, json_str("latest_turn_output_line"@))].push(("line_index"@, line_index.json())).push(("value_type"@, value_type.json())),
        ResponseValueSelector::LatestTurnOutputScalarOrdinal { scalar_ordinal, value_type } => seq![("kind"@, json_str("latest_turn_output_scalar_ordinal"@))].push(("scalar_ordinal"@, scalar_ordinal.json())).push(("value_type"@, value_type.json())),
        ResponseValueSelector::LatestTurnOutputScalarFromEnd { reverse_ordinal, value_type } => seq![("kind"@, json_str("latest_turn_output_scalar_from_end"@))].push(("reverse_ordinal"@, reverse_ordinal.json())).push(("value_type"@, value_type.json())),
        ResponseValueSelector::CommandOutputBody => seq![("kind"@, json_str("command_output_body"@))],
        ResponseValueSelector::RequestLastToken => seq![("kind"@, json_str("request_last_token"@))],
        ResponseValueSelector::RequestUniqueLiteral => seq![("kind"@, json_str("request_unique_literal"@))],
    }
}

fn write_selector_part_0(out: &mut Vec<u8>, x: &ResponseValueSelector)
    requires
        *x is ContinuationHandle || *x is UniqueScalar || *x is UniqueTurnScalar || *x is ContentLinePrefix || *x is JsonField || *x is JsonScalarOrdinal,
    ensures
        final(out)@ == old(out)@ + object(selector_fields(*x)),
{
    match x {
        ResponseValueSelector::ContinuationHandle { value_type } => {
            let st = begin_object(out);
            let st = write_member_str(out, st, "kind", "continuation_handle");
            let st = write_member(out, st, "value_type", value_type);
            end_object(out, st);
        },
        ResponseValueSelector::UniqueScalar { value_type } => {
            let st = begin_object(out);
            let st = write_member_str(out, st, "kind", "unique_scalar");
            let st = write_member(out, st, "value_type", value_type);
            end_object(out, st);
        },
        ResponseValueSelector::UniqueTurnScalar { value_type } => {
            let st = begin_object(out);
            let st = write_member_str(out, st, "kind", "unique_turn_scalar");
            let st = write_member(out, st, "value_type", value_type);
            end_object(out, st);
        },
        ResponseValueSelector::ContentLinePrefix { prefix, value_type } => {
            let st = begin_object(out);
            let st = write_member_str(out, st, "kind", "content_line_prefix");
            let st = write_member(out, st, "prefix", prefix);
            let st = write_member(out, st, "value_type", value_type);
            end_object(out, st);
        },
        ResponseValueSelector::JsonField { field, value_type } => {
            let st = begin_object(out);
            let st = write_member(out, st, "field", field);
            let st = write_member_str(out, st, "kind", "json_field");
            let st = write_member(out, st, "value_type", value_type);
            end_object(out, st);
        },
        ResponseValueSelector::JsonScalarOrdinal { ordinal, value_type } => {
            let st = begin_object(out);
            let st = write_member_str(out, st, "kind", "json_scalar_ordinal");
            let st = write_member(out, st, "ordinal", ordinal);
            let st = write_member(out, st, "value_type", value_type);
            end_object(out, st);
        },
        _ => {},
    }
}

fn write_selector_part_1(out: &mut Vec<u8>, x: &ResponseValueSelector)
    requires
        *x is UniqueTurnJsonField || *x is UniqueActiveTurnJsonField || *x is RequestReferencedJsonField || *x is RequestReferencedJsonFieldOrdinal || *x is TurnOutputLine || *x is TurnOutputScalarOrdinal,
    ensures
        final(out)@ == old(out)@ + object(selector_fields(*x)),
{
    match x {
        ResponseValueSelector::UniqueTurnJsonField { field, value_type } => {
            let st = begin_object(out);
            let st = write_member(out, st, "field", field);
            let st = write_member_str(out, st, "kind", "unique_turn_json_field");
            let st = write_member(out, st, "value_type", value_type);
            end_object(out, st);
        },
        ResponseValueSelector::UniqueActiveTurnJsonField { field, value_type } => {
            let st = begin_object(out);
            let st = write_member(out, st, "field", field);
            let st = write_member_str(out, st, "kind", "unique_active_turn_json_field");
            let st = write_member(out, st, "value_type", value_type);
            end_object(out, st);
        },
        ResponseValueSelector::RequestReferencedJsonField { value_type } => {
            let st = begin_object(out);
            let st = write_member_str(out, st, "kind", "request_referenced_json_field");
            let st = write_member(out, st, "value_type", value_type);
            end_object(out, st);
        },
        ResponseValueSelector::RequestReferencedJsonFieldOrdinal { ordinal, value_type } => {
            let st = begin_object(out);
            let st = write_member_str(out, st, "kind", "request_referenced_json_field_ordinal");
            let st = write_member(out, st, "ordinal", ordinal);
            let st = write_member(out, st, "value_type", value_type);
            end_object(out, st);
        },
        ResponseValueSelector::TurnOutputLine { output_ordinal, line_index, value_type } => {
            let st = begin_object(out);
            let st = write_member_str(out, st, "kind", "turn_output_line");
            let st = write_member(out, st, "line_index", line_index);
            let st = write_member(out, st, "output_ordinal", output_ordinal);
            let st = write_member(out, st, "value_type", value_type);
            end_object(out, st);
        },
        ResponseValueSelector::TurnOutputScalarOrdinal { output_ordinal, scalar_ordinal, value_type } => {
            let st = begin_object(out);
            let st = write_member_str(out, st, "kind", "turn_output_scalar_ordinal");
            let st = write_member(out, st, "output_ordinal", output_ordinal);
            let st = write_member(out, st, "scalar_ordinal", scalar_ordinal);
            let st = write_member(out, st, "value_type", value_type);
            end_object(out, st);
        },
        _ => {},
    }
}

fn write_selector_part_2(out: &mut Vec<u8>, x: &ResponseValueSelector)
    requires
        *x is LatestTurnOutputLine || *x is LatestTurnOutputScalarOrdinal || *x is LatestTurnOutputScalarFromEnd || *x is CommandOutputBody || *x is RequestLastToken || *x is RequestUniqueLiteral,
    ensures
        final(out)@ == old(out)@ + object(selector_fields(*x)),
{
    match x {
        ResponseValueSelector::LatestTurnOutputLine { line_index, value_type } => {
            let st = begin_object(out);
            let st = write_member_str(out, st, "kind", "latest_turn_output_line");
            let st = write_member(out, st, "line_index", line_index);
            let st = write_member(out, st, "value_type", value_type);
            end_object(out, st);
        },
        ResponseValueSelector::LatestTurnOutputScalarOrdinal { scalar_ordinal, value_type } => {
            let st = begin_object(out);
            let st = write_member_str(out, st, "kind", "latest_turn_output_scalar_ordinal");
            let st = write_member(out, st, "scalar_ordinal", scalar_ordinal);
            let st = write_member(out, st, "value_type", value_type);
            end_object(out, st);
        },
        ResponseValueSelector::LatestTurnOutputScalarFromEnd { reverse_ordinal, value_type } => {
            let st = begin_object(out);
            let st = write_member_str(out, st, "kind", "latest_turn_output_scalar_from_end");
            let st = write_member(out, st, "reverse_ordinal", reverse_ordinal);
            let st = write_member(out, st, "value_type", value_type);
            end_object(out, st);
        },
        ResponseValueSelector::CommandOutputBody => {
            let st = begin_object(out);
            let st = write_member_str(out, st, "kind", "command_output_body");
            end_object(out, st);
        },
        ResponseValueSelector::RequestLastToken => {
            let st = begin_object(out);
            let st = write_member_str(out, st, "kind", "request_last_token");
            end_object(out, st);
        },
        ResponseValueSelector::RequestUniqueLiteral => {
            let st = begin_object(out);
            let st = write_member_str(out, st, "kind", "request_unique_literal");
            end_object(out, st);
        },
        _ => {},
    }
}

impl CanonicalJson for ResponseValueSelector {
    open spec fn json(&self) -> Seq<u8> {
        object(selector_fields(*self))
    }

    fn write_json(&self, out: &mut Vec<u8>) {
        match self {
            ResponseValueSelector::ContinuationHandle { .. } => write_selector_part_0(out, self),
            ResponseValueSelector::UniqueScalar { .. } => write_selector_part_0(out, self),
            ResponseValueSelector::UniqueTurnScalar { .. } => write_selector_part_0(out, self),
            ResponseValueSelector::ContentLinePrefix { .. } => write_selector_part_0(out, self),
            ResponseValueSelector::JsonField { .. } => write_selector_part_0(out, self),
            ResponseValueSelector::JsonScalarOrdinal { .. } => write_selector_part_0(out, self),
            ResponseValueSelector::UniqueTurnJsonField { .. } => write_selector_part_1(out, self),
            ResponseValueSelector::UniqueActiveTurnJsonField { .. } => write_selector_part_1(out, self),
            ResponseValueSelector::RequestReferencedJsonField { .. } => write_selector_part_1(out, self),
            ResponseValueSelector::RequestReferencedJsonFieldOrdinal { .. } => write_selector_part_1(out, self),
            ResponseValueSelector::TurnOutputLine { .. } => write_selector_part_1(out, self),
            ResponseValueSelector::TurnOutputScalarOrdinal { .. } => write_selector_part_1(out, self),
            ResponseValueSelector::LatestTurnOutputLine { .. } => write_selector_part_2(out, self),
            ResponseValueSelector::LatestTurnOutputScalarOrdinal { .. } => write_selector_part_2(out, self),
            ResponseValueSelector::LatestTurnOutputScalarFromEnd { .. } => write_selector_part_2(out, self),
            ResponseValueSelector::CommandOutputBody => write_selector_part_2(out, self),
            ResponseValueSelector::RequestLastToken => write_selector_part_2(out, self),
            ResponseValueSelector::RequestUniqueLiteral => write_selector_part_2(out, self),
        }
    }
}

impl CanonicalJson for CustomToolResultProjection {
    open spec fn json(&self) -> Seq<u8> {
        match self {
            CustomToolResultProjection::OutputField { output_field } => object(seq![("kind"@, json_str("output_field"@))].push(("output_field"@, output_field.json()))),
            CustomToolResultProjection::OutputAndContinuation { output_field, continuation_field, continuation_prefix } => object(seq![("continuation_field"@, continuation_field.json())].push(("continuation_prefix"@, continuation_prefix.json())).push(("kind"@, json_str("output_and_continuation"@))).push(("output_field"@, output_field.json()))),
            CustomToolResultProjection::JsonStringifyResult => object(seq![("kind"@, json_str("json_stringify_result"@))]),
        }
    }

    fn write_json(&self, out: &mut Vec<u8>) {
        match self {
            CustomToolResultProjection::OutputField { output_field } => {
                let st = begin_object(out);
                let st = write_member_str(out, st, "kind", "output_field");
                let st = write_member(out, st, "output_field", output_field);
                end_object(out, st);
            },
            CustomToolResultProjection::OutputAndContinuation { output_field, continuation_field, continuation_prefix } => {
                let st = begin_object(out);
                let st = write_member(out, st, "continuation_field", continuation_field);
                let st = write_member(out, st, "continuation_prefix", continuation_prefix);
                let st = write_member_str(out, st, "kind", "output_and_continuation");
                let st = write_member(out, st, "output_field", output_field);
                end_object(out, st);
            },
            CustomToolResultProjection::JsonStringifyResult => {
                let st = begin_object(out);
                let st = write_member_str(out, st, "kind", "json_stringify_result");
                end_object(out, st);
            },
        }
    }
}

impl CanonicalJson for ResponseRenderSegment {
    open spec fn json(&self) -> Seq<u8> {
        match self {
            ResponseRenderSegment::Static { text } => object(seq![("kind"@, json_str("static"@))].push(("text"@, text.json()))),
            ResponseRenderSegment::Primary => object(seq![("kind"@, json_str("primary"@))]),
            ResponseRenderSegment::Selected { selector, format } => object(seq![("format"@, format.json())].push(("kind"@, json_str("selected"@))).push(("selector"@, selector.json()))),
        }
    }

    fn write_json(&self, out: &mut Vec<u8>) {
        match self {
            ResponseRenderSegment::Static { text } => {
                let st = begin_object(out);
                let st = write_member_str(out, st, "kind", "static");
                let st = write_member(out, st, "text", text);
                end_object(out, st);
            },
            ResponseRenderSegment::Primary => {
                let st = begin_object(out);
                let st = write_member_str(out, st, "kind", "primary");
                end_object(out, st);
            },
            ResponseRenderSegment::Selected { selector, format } => {
                let st = begin_object(out);
                let st = write_member(out, st, "format", format);
                let st = write_member_str(out, st, "kind", "selected");
                let st = write_member(out, st, "selector", selector);
                end_object(out, st);
            },
        }
    }
}

impl CanonicalJson for CollectionOutputRenderer {
    open spec fn json(&self) -> Seq<u8> {
        match self {
            CollectionOutputRenderer::Direct => object(seq![("kind"@, json_str("direct"@))]),
            CollectionOutputRenderer::RenderTemplate { prefix, suffix } => object(seq![("kind"@, json_str("render_template"@))].push(("prefix"@, prefix.json())).push(("suffix"@, suffix.json()))),
            CollectionOutputRenderer::RenderSequence { segments } => object(seq![("kind"@, json_str("render_sequence"@))].push(("segments"@, segments.json()))),
            CollectionOutputRenderer::RequestTemplate { marker } => object(seq![("kind"@, json_str("request_template"@))].push(("marker"@, marker.json()))),
        }
    }

    fn write_json(&self, out: &mut Vec<u8>) {
        match self {
            CollectionOutputRenderer::Direct => {
                let st = begin_object(out);
                let st = write_member_str(out, st, "kind", "direct");
                end_object(out, st);
            },
            CollectionOutputRenderer::RenderTemplate { prefix, suffix } => {
                let st = begin_object(out);
                let st = write_member_str(out, st, "kind", "render_template");
                let st = write_member(out, st, "prefix", prefix);
                let st = write_member(out, st, "suffix", suffix);
                end_object(out, st);
            },
            CollectionOutputRenderer::RenderSequence { segments } => {
                let st = begin_object(out);
                let st = write_member_str(out, st, "kind", "render_sequence");
                let st = write_member(out, st, "segments", segments);
                end_object(out, st);
            },
            CollectionOutputRenderer::RequestTemplate { marker } => {
                let st = begin_object(out);
                let st = write_member_str(out, st, "kind", "request_template");
                let st = write_member(out, st, "marker", marker);
                end_object(out, st);
            },
        }
    }
}

impl CanonicalJson for CollectionProgramStep {
    open spec fn json(&self) -> Seq<u8> {
        match self {
            CollectionProgramStep::SelectTurnOutput { output_ordinal } => object(seq![("output_ordinal"@, output_ordinal.json())].push(("step"@, json_str("select_turn_output"@)))),
            CollectionProgramStep::SelectOnlyArrayField => object(seq![("step"@, json_str("select_only_array_field"@))]),
            CollectionProgramStep::SelectField { field } => object(seq![("field"@, field.json())].push(("step"@, json_str("select_field"@)))),
            CollectionProgramStep::FilterUniqueFieldEquals { value } => object(seq![("step"@, json_str("filter_unique_field_equals"@))].push(("value"@, value.json()))),
            CollectionProgramStep::FilterUniqueFieldEqualsRequestValue { value_type } => object(seq![("step"@, json_str("filter_unique_field_equals_request_value"@))].push(("value_type"@, value_type.json()))),
            CollectionProgramStep::FilterUniqueFieldEqualsSelectedValue { selector, value_type } => object(seq![("selector"@, selector.json())].push(("step"@, json_str("filter_unique_field_equals_selected_value"@))).push(("value_type"@, value_type.json()))),
            CollectionProgramStep::FilterFieldEquals { field, value } => object(seq![("field"@, field.json())].push(("step"@, json_str("filter_field_equals"@))).push(("value"@, value.json()))),
            CollectionProgramStep::ProjectField { field } => object(seq![("field"@, field.json())].push(("step"@, json_str("project_field"@)))),
            CollectionProgramStep::ProjectUniqueFieldByType { value_type } => object(seq![("step"@, json_str("project_unique_field_by_type"@))].push(("value_type"@, value_type.json()))),
            CollectionProgramStep::ProjectOnlyNonFilterField => object(seq![("step"@, json_str("project_only_non_filter_field"@))]),
            CollectionProgramStep::AggregateUniqueIntegerField { operation } => object(seq![("operation"@, operation.json())].push(("step"@, json_str("aggregate_unique_integer_field"@)))),
            CollectionProgramStep::Count => object(seq![("step"@, json_str("count"@))]),
        }
    }

    fn write_json(&self, out: &mut Vec<u8>) {
        match self {
            CollectionProgramStep::SelectTurnOutput { output_ordinal } => {
                let st = begin_object(out);
                let st = write_member(out, st, "output_ordinal", output_ordinal);
                let st = write_member_str(out, st, "step", "select_turn_output");
                end_object(out, st);
            },
            CollectionProgramStep::SelectOnlyArrayField => {
                let st = begin_object(out);
                let st = write_member_str(out, st, "step", "select_only_array_field");
                end_object(out, st);
            },
            CollectionProgramStep::SelectField { field } => {
                let st = begin_object(out);
                let st = write_member(out, st, "field", field);
                let st = write_member_str(out, st, "step", "select_field");
                end_object(out, st);
            },
            CollectionProgramStep::FilterUniqueFieldEquals { value } => {
                let st = begin_object(out);
                let st = write_member_str(out, st, "step", "filter_unique_field_equals");
                let st = write_member(out, st, "value", value);
                end_object(out, st);
            },
            CollectionProgramStep::FilterUniqueFieldEqualsRequestValue { value_type } => {
                let st = begin_object(out);
                let st = write_member_str(out, st, "step", "filter_unique_field_equals_request_value");
                let st = write_member(out, st, "value_type", value_type);
                end_object(out, st);
            },
            CollectionProgramStep::FilterUniqueFieldEqualsSelectedValue { selector, value_type } => {
                let st = begin_object(out);
                let st = write_member(out, st, "selector", selector);
                let st = write_member_str(out, st, "step", "filter_unique_field_equals_selected_value");
                let st = write_member(out, st, "value_type", value_type);
                end_object(out, st);
            },
            CollectionProgramStep::FilterFieldEquals { field, value } => {
                let st = begin_object(out);
                let st = write_member(out, st, "field", field);
                let st = write_member_str(out, st, "step", "filter_field_equals");
                let st = write_member(out, st, "value", value);
                end_object(out, st);
            },
            CollectionProgramStep::ProjectField { field } => {
                let st = begin_object(out);
                let st = write_member(out, st, "field", field);
                let st = write_member_str(out, st, "step", "project_field");
                end_object(out, st);
            },
            CollectionProgramStep::ProjectUniqueFieldByType { value_type } => {
                let st = begin_object(out);
                let st = write_member_str(out, st, "step", "project_unique_field_by_type");
                let st = write_member(out, st, "value_type", value_type);
                end_object(out, st);
            },
            CollectionProgramStep::ProjectOnlyNonFilterField => {
                let st = begin_object(out);
                let st = write_member_str(out, st, "step", "project_only_non_filter_field");
                end_object(out, st);
            },
            CollectionProgramStep::AggregateUniqueIntegerField { operation } => {
                let st = begin_object(out);
                let st = write_member(out, st, "operation", operation);
                let st = write_member_str(out, st, "step", "aggregate_unique_integer_field");
                end_object(out, st);
            },
            CollectionProgramStep::Count => {
                let st = begin_object(out);
                let st = write_member_str(out, st, "step", "count");
                end_object(out, st);
            },
        }
    }
}

impl CanonicalJson for ResponseScalarLiteral {
    open spec fn json(&self) -> Seq<u8> {
        match self {
            ResponseScalarLiteral::String(v) =>
                object(seq![("type"@, json_str("string"@))].push(("value"@, v.json()))),
            ResponseScalarLiteral::Integer(v) =>
                object(seq![("type"@, json_str("integer"@))].push(("value"@, v.json()))),
            ResponseScalarLiteral::Boolean(v) =>
                object(seq![("type"@, json_str("boolean"@))].push(("value"@, v.json()))),
            ResponseScalarLiteral::Null => object(seq![("type"@, json_str("null"@))]),
        }
    }

    fn write_json(&self, out: &mut Vec<u8>) {
        let st = begin_object(out);
        match self {
            ResponseScalarLiteral::String(v) => {
                let st = write_member_str(out, st, "type", "string");
                let st = write_member(out, st, "value", v);
                end_object(out, st);
            },
            ResponseScalarLiteral::Integer(v) => {
                let st = write_member_str(out, st, "type", "integer");
                let st = write_member(out, st, "value", v);
                end_object(out, st);
            },
            ResponseScalarLiteral::Boolean(v) => {
                let st = write_member_str(out, st, "type", "boolean");
                let st = write_member(out, st, "value", v);
                end_object(out, st);
            },
            ResponseScalarLiteral::Null => {
                let st = write_member_str(out, st, "type", "null");
                end_object(out, st);
            },
        }
    }
}

impl CanonicalJson for ResponseArgument {
    open spec fn json(&self) -> Seq<u8> {
        match self {
            ResponseArgument::Role { name, role, value_type } => {
                let fs = seq![("name"@, name.json())].push(("role"@, role.json()))
                    .push(("source"@, json_str("role"@)));
                match value_type {
                    Some(t) => object(fs.push(("value_type"@, t.json()))),
                    None => object(fs),
                }
            },
            ResponseArgument::Integer { name, value } =>
                object(seq![("name"@, name.json())].push(("source"@, json_str("integer"@))).push(("value"@, value.json()))),
            ResponseArgument::String { name, value } =>
                object(seq![("name"@, name.json())].push(("source"@, json_str("string"@))).push(("value"@, value.json()))),
            ResponseArgument::Boolean { name, value } =>
                object(seq![("name"@, name.json())].push(("source"@, json_str("boolean"@))).push(("value"@, value.json()))),
        }
    }

    fn write_json(&self, out: &mut Vec<u8>) {
        let st = begin_object(out);
        match self {
            ResponseArgument::Role { name, role, value_type } => {
                let st = write_member(out, st, "name", name);
                let st = write_member(out, st, "role", role);
                let st = write_member_str(out, st, "source", "role");
                match value_type {
                    Some(t) => {
                        let st = write_member(out, st, "value_type", t);
                        end_object(out, st);
                    },
                    None => end_object(out, st),
                }
            },
            ResponseArgument::Integer { name, value } => {
                let st = write_member(out, st, "name", name);
                let st = write_member_str(out, st, "source", "integer");
                let st = write_member(out, st, "value", value);
                end_object(out, st);
            },
            ResponseArgument::String { name, value } => {
                let st = write_member(out, st, "name", name);
                let st = write_member_str(out, st, "source", "string");
                let st = write_member(out, st, "value", value);
                end_object(out, st);
            },
            ResponseArgument::Boolean { name, value } => {
                let st = write_member(out, st, "name", name);
                let st = write_member_str(out, st, "source", "boolean");
                let st = write_member(out, st, "value", value);
                end_object(out, st);
            },
        }
    }
}

impl CanonicalJson for ResponseAdapterWaveSubcenter {
    open spec fn json(&self) -> Seq<u8> {
        object(seq![("center_delta_micro"@, self.center_delta_micro.json())]
            .push(("threshold_micro"@, self.threshold_micro.json())))
    }

    fn write_json(&self, out: &mut Vec<u8>) {
        let st = begin_object(out);
        let st = write_member(out, st, "center_delta_micro", &self.center_delta_micro);
        let st = write_member(out, st, "threshold_micro", &self.threshold_micro);
        end_object(out, st);
    }
}

/// The members of a route; empty id lists and subcenters are left out.
pub open spec fn route_fields(r: ResponseAdapterWaveRoute) -> Seq<(Seq<char>, Seq<u8>)> {
    let a: Seq<(Seq<char>, Seq<u8>)> = if r.anchor_atom_ids@.len() == 0 {
        Seq::empty()
    } else {
        seq![("anchor_atom_ids"@, r.anchor_atom_ids.json())]
    };
    let b = a.push(("cells"@, r.cells.json())).push(("center_delta_micro"@, r.center_delta_micro.json()));
    let c = if r.positive_fingerprint_ids@.len() == 0 {
        b
    } else {
        b.push(("positive_fingerprint_ids"@, r.positive_fingerprint_ids.json()))
    };
    let d = if r.subcenters@.len() == 0 { c } else { c.push(("subcenters"@, r.subcenters.json())) };
    d.push(("threshold_micro"@, r.threshold_micro.json()))
}

impl CanonicalJson for ResponseAdapterWaveRoute {
    open spec fn json(&self) -> Seq<u8> {
        object(route_fields(*self))
    }

    fn write_json(&self, out: &mut Vec<u8>) {
        let st = begin_object(out);
        let st = if self.anchor_atom_ids.len() == 0 {
            st
        } else {
            write_member(out, st, "anchor_atom_ids", &self.anchor_atom_ids)
        };
        let st = write_member(out, st, "cells", &self.cells);
        let st = write_member(out, st, "center_delta_micro", &self.center_delta_micro);
        let st = if self.positive_fingerprint_ids.len() == 0 {
            st
        } else {
            write_member(out, st, "positive_fingerprint_ids", &self.positive_fingerprint_ids)
        };
        let st = if self.subcenters.len() == 0 { st } else { write_member(out, st, "subcenters", &self.subcenters) };
        let st = write_member(out, st, "threshold_micro", &self.threshold_micro);
        end_object(out, st);
    }
}

impl CanonicalJson for ResponseAdapterWaveConsensus {
    open spec fn json(&self) -> Seq<u8> {
        object(seq![("exact_budget"@, self.exact_budget.json())].push(("routes"@, self.routes.json())))
    }

    fn write_json(&self, out: &mut Vec<u8>) {
        let st = begin_object(out);
        let st = write_member(out, st, "exact_budget", &self.exact_budget);
        let st = write_member(out, st, "routes", &self.routes);
        end_object(out, st);
    }
}

/// A renderer member, left out for the direct renderer.
pub open spec fn with_renderer(fs: Seq<(Seq<char>, Seq<u8>)>, r: CollectionOutputRenderer) -> Seq<(Seq<char>, Seq<u8>)> {
    if r is Direct { fs } else { fs.push(("renderer"@, r.json())) }
}

/// The canonical JSON of a response program.
pub open spec fn program_json(p: ResponseProgram) -> Seq<u8>
    decreases p, 3int,
{
    proof {
        assert(decreases_to!(p => p.operation));
    }
    object(seq![("max_output_bytes"@, p.max_output_bytes.json())]
        .push(("operation"@, object(operation_fields(p.operation))))
        .push(("schema"@, json_str(p.schema@))))
}

/// The members of the canonical JSON object of an operation.
pub open spec fn operation_fields(op: ResponseOperation) -> Seq<(Seq<char>, Seq<u8>)>
    decreases op, 2int,
{
    match op {
        ResponseOperation::UniqueConsensus { variants, adapter_wave } => {
            let fs: Seq<(Seq<char>, Seq<u8>)> = match adapter_wave {
                Some(w) => seq![("adapter_wave"@, w.json())],
                None => Seq::empty(),
            };
            proof {
                assert(decreases_to!(op => op->variants));
                assert(decreases_to!(op->variants => op->variants@));
            }
            fs.push(("op"@, json_str("unique_consensus"@)))
                .push(("variants"@, seq![0x5bu8] + variant_items(variants@) + seq![0x5du8]))
        },
        ResponseOperation::AdvancePlan { function_name } =>
            seq![("function_name"@, function_name.json())].push(("op"@, json_str("advance_plan"@))),
        ResponseOperation::FunctionCallFromRoles { function_name, selector, arguments } =>
            seq![("arguments"@, arguments.json())].push(("function_name"@, function_name.json()))
                .push(("op"@, json_str("function_call_from_roles"@))).push(("selector"@, selector.json())),
        ResponseOperation::CustomToolCallFromRoles { custom_tool_name, inner_tool_name, selector, arguments, projection } =>
            seq![("arguments"@, arguments.json())].push(("custom_tool_name"@, custom_tool_name.json()))
                .push(("inner_tool_name"@, inner_tool_name.json()))
                .push(("op"@, json_str("custom_tool_call_from_roles"@)))
                .push(("projection"@, projection.json())).push(("selector"@, selector.json())),
        ResponseOperation::ProjectSelectedValue { selector, format, renderer, completion_state } =>
            with_renderer(
                seq![("completion_state"@, completion_state.json())].push(("format"@, format.json()))
                    .push(("op"@, json_str("project_selected_value"@))),
                renderer,
            ).push(("selector"@, selector.json())),
        ResponseOperation::ProjectStatus { selector, mapping, renderer, completion_state } =>
            with_renderer(
                seq![("completion_state"@, completion_state.json())].push(("mapping"@, mapping.json()))
                    .push(("op"@, json_str("project_status"@))),
                renderer,
            ).push(("selector"@, selector.json())),
        ResponseOperation::ComposeCollection { steps, format, renderer, completion_state, max_items } =>
            with_renderer(
                seq![("completion_state"@, completion_state.json())].push(("format"@, format.json()))
                    .push(("max_items"@, max_items.json())).push(("op"@, json_str("compose_collection"@))),
                renderer,
            ).push(("steps"@, steps.json())),
        ResponseOperation::CopyAfterPrefix { prefixes, trim, allow_multiline } =>
            seq![("allow_multiline"@, allow_multiline.json())].push(("op"@, json_str("copy_after_prefix"@)))
                .push(("prefixes"@, prefixes.json())).push(("trim"@, trim.json())),
        ResponseOperation::TestResultSummary { required_intent_phrases, forbidden_intent_terms } =>
            seq![("forbidden_intent_terms"@, forbidden_intent_terms.json())]
                .push(("op"@, json_str("test_result_summary"@)))
                .push(("required_intent_phrases"@, required_intent_phrases.json())),
        ResponseOperation::WaitOnYieldedCell { function_name, yield_time_ms, max_tokens } =>
            seq![("function_name"@, function_name.json())].push(("max_tokens"@, max_tokens.json()))
                .push(("op"@, json_str("wait_on_yielded_cell"@))).push(("yield_time_ms"@, yield_time_ms.json())),
        ResponseOperation::WaitOnAnyYieldedCell { function_name, yield_time_ms, max_tokens } =>
            seq![("function_name"@, function_name.json())].push(("max_tokens"@, max_tokens.json()))
                .push(("op"@, json_str("wait_on_any_yielded_cell"@))).push(("yield_time_ms"@, yield_time_ms.json())),
        ResponseOperation::WaitOnYieldedSurfaces { surfaces, function_name, yield_time_ms, max_tokens } =>
            seq![("function_name"@, function_name.json())].push(("max_tokens"@, max_tokens.json()))
                .push(("op"@, json_str("wait_on_yielded_surfaces"@))).push(("surfaces"@, surfaces.json()))
                .push(("yield_time_ms"@, yield_time_ms.json())),
    }
}

/// The comma-separated canonical JSON of consensus variants.
pub open spec fn variant_items(vs: Seq<ResponseConsensusVariant>) -> Seq<u8>
    decreases vs, 1int,
{
    if vs.len() == 0 {
        Seq::empty()
    } else {
        proof {
            assert(decreases_to!(vs => vs[vs.len() - 1]));
        }
        if vs.len() == 1 {
            variant_json(vs[vs.len() - 1])
        } else {
            variant_items(vs.subrange(0, vs.len() - 1)) + seq![0x2cu8] + variant_json(vs[vs.len() - 1])
        }
    }
}

/// The canonical JSON of a consensus variant; empty guard lists are left out.
pub open spec fn variant_json(v: ResponseConsensusVariant) -> Seq<u8>
    decreases v, 0int,
{
    let a: Seq<(Seq<char>, Seq<u8>)> = if v.allowed_layout_sha256@.len() == 0 {
        Seq::empty()
    } else {
        seq![("allowed_layout_sha256"@, v.allowed_layout_sha256.json())]
    };
    proof {
        assert(decreases_to!(v => v.program));
    }
    let b = a.push(("program"@, program_json(v.program)));
    let c = if v.required_request_atom_ids@.len() == 0 {
        b
    } else {
        b.push(("required_request_atom_ids"@, v.required_request_atom_ids.json()))
    };
    object(c)
}

fn write_renderer_member(out: &mut Vec<u8>, st: ObjectState, r: &CollectionOutputRenderer) -> (res: ObjectState)
    requires
        object_open(old(out)@, st),
    ensures
        res.start@ == st.start@,
        res.fields@ == with_renderer(st.fields@, *r),
        object_open(final(out)@, res),
{
    if r.is_direct() {
        st
    } else {
        write_member(out, st, "renderer", r)
    }
}

fn write_calls(out: &mut Vec<u8>, op: &ResponseOperation)
    requires
        *op is AdvancePlan || *op is FunctionCallFromRoles || *op is CustomToolCallFromRoles,
    ensures
        final(out)@ == old(out)@ + object(operation_fields(*op)),
{
    let st = begin_object(out);
    match op {
        ResponseOperation::AdvancePlan { function_name } => {
            let st = write_member(out, st, "function_name", function_name);
            let st = write_member_str(out, st, "op", "advance_plan");
            end_object(out, st);
        },
        ResponseOperation::FunctionCallFromRoles { function_name, selector, arguments } => {
            let st = write_member(out, st, "arguments", arguments);
            let st = write_member(out, st, "function_name", function_name);
            let st = write_member_str(out, st, "op", "function_call_from_roles");
            let st = write_member(out, st, "selector", selector);
            end_object(out, st);
        },
        ResponseOperation::CustomToolCallFromRoles { custom_tool_name, inner_tool_name, selector, arguments, projection } => {
            let st = write_member(out, st, "arguments", arguments);
            let st = write_member(out, st, "custom_tool_name", custom_tool_name);
            let st = write_member(out, st, "inner_tool_name", inner_tool_name);
            let st = write_member_str(out, st, "op", "custom_tool_call_from_roles");
            let st = write_member(out, st, "projection", projection);
            let st = write_member(out, st, "selector", selector);
            end_object(out, st);
        },
        _ => {},
    }
}

fn write_projections(out: &mut Vec<u8>, op: &ResponseOperation)
    requires
        *op is ProjectSelectedValue || *op is ProjectStatus || *op is ComposeCollection,
    ensures
        final(out)@ == old(out)@ + object(operation_fields(*op)),
{
    let st = begin_object(out);
    match op {
        ResponseOperation::ProjectSelectedValue { selector, format, renderer, completion_state } => {
            let st = write_member(out, st, "completion_state", completion_state);
            let st = write_member(out, st, "format", format);
            let st = write_member_str(out, st, "op", "project_selected_value");
            let st = write_renderer_member(out, st, renderer);
            let st = write_member(out, st, "selector", selector);
            end_object(out, st);
        },
        ResponseOperation::ProjectStatus { selector, mapping, renderer, completion_state } => {
            let st = write_member(out, st, "completion_state", completion_state);
            let st = write_member(out, st, "mapping", mapping);
            let st = write_member_str(out, st, "op", "project_status");
            let st = write_renderer_member(out, st, renderer);
            let st = write_member(out, st, "selector", selector);
            end_object(out, st);
        },
        ResponseOperation::ComposeCollection { steps, format, renderer, completion_state, max_items } => {
            let st = write_member(out, st, "completion_state", completion_state);
            let st = write_member(out, st, "format", format);
            let st = write_member(out, st, "max_items", max_items);
            let st = write_member_str(out, st, "op", "compose_collection");
            let st = write_renderer_member(out, st, renderer);
            let st = write_member(out, st, "steps", steps);
            end_object(out, st);
        },
        _ => {},
    }
}

fn write_routines(out: &mut Vec<u8>, op: &ResponseOperation)
    requires
        *op is CopyAfterPrefix || *op is TestResultSummary || *op is WaitOnYieldedCell
            || *op is WaitOnAnyYieldedCell || *op is WaitOnYieldedSurfaces,
    ensures
        final(out)@ == old(out)@ + object(operation_fields(*op)),
{
    let st = begin_object(out);
    match op {
        ResponseOperation::CopyAfterPrefix { prefixes, trim, allow_multiline } => {
            let st = write_member(out, st, "allow_multiline", allow_multiline);
            let st = write_member_str(out, st, "op", "copy_after_prefix");
            let st = write_member(out, st, "prefixes", prefixes);
            let st = write_member(out, st, "trim", trim);
            end_object(out, st);
        },
        ResponseOperation::TestResultSummary { required_intent_phrases, forbidden_intent_terms } => {
            let st = write_member(out, st, "forbidden_intent_terms", forbidden_intent_terms);
            let st = write_member_str(out, st, "op", "test_result_summary");
            let st = write_member(out, st, "required_intent_phrases", required_intent_phrases);
            end_object(out, st);
        },
        ResponseOperation::WaitOnYieldedCell { function_name, yield_time_ms, max_tokens } => {
            let st = write_member(out, st, "function_name", function_name);
            let st = write_member(out, st, "max_tokens", max_tokens);
            let st = write_member_str(out, st, "op", "wait_on_yielded_cell");
            let st = write_member(out, st, "yield_time_ms", yield_time_ms);
            end_object(out, st);
        },
        ResponseOperation::WaitOnAnyYieldedCell { function_name, yield_time_ms, max_tokens } => {
            let st = write_member(out, st, "function_name", function_name);
            let st = write_member(out, st, "max_tokens", max_tokens);
            let st = write_member_str(out, st, "op", "wait_on_any_yielded_cell");
            let st = write_member(out, st, "yield_time_ms", yield_time_ms);
            end_object(out, st);
        },
        ResponseOperation::WaitOnYieldedSurfaces { surfaces, function_name, yield_time_ms, max_tokens } => {
            let st = write_member(out, st, "function_name", function_name);
            let st = write_member(out, st, "max_tokens", max_tokens);
            let st = write_member_str(out, st, "op", "wait_on_yielded_surfaces");
            let st = write_member(out, st, "surfaces", surfaces);
            let st = write_member(out, st, "yield_time_ms", yield_time_ms);
            end_object(out, st);
        },
        _ => {},
    }
}

/// Appends the canonical JSON of a response program.
pub fn write_program(out: &mut Vec<u8>, p: &ResponseProgram)
    ensures
        final(out)@ == old(out)@ + program_json(*p),
    decreases p, 3int,
{
    let st = begin_object(out);
    let st = write_member(out, st, "max_output_bytes", &p.max_output_bytes);
    let mut op_bytes: Vec<u8> = Vec::new();
    proof {
        assert(decreases_to!(*p => p.operation));
    }
    write_operation(&mut op_bytes, &p.operation);
    assert(op_bytes@ =~= object(operation_fields(p.operation)));
    let st = write_member_bytes(out, st, "operation", op_bytes.as_slice());
    let st = write_member(out, st, "schema", &p.schema);
    end_object(out, st);
}

#[verifier::loop_isolation(false)]
fn write_operation(out: &mut Vec<u8>, op: &ResponseOperation)
    ensures
        final(out)@ == old(out)@ + object(operation_fields(*op)),
    decreases op, 2int,
{
    match op {
        ResponseOperation::UniqueConsensus { variants, adapter_wave } => {
            let st = begin_object(out);
            let st = match adapter_wave {
                Some(w) => write_member(out, st, "adapter_wave", w),
                None => st,
            };
            let st = write_member_str(out, st, "op", "unique_consensus");
            let mut items: Vec<u8> = Vec::new();
            items.push(0x5b);
            let mut i: usize = 0;
            while i < variants.len()
                invariant
                    i <= variants@.len(),
                    items@ == seq![0x5bu8] + variant_items(variants@.subrange(0, i as int)),
                decreases variants@.len() - i,
            {
                if i > 0 {
                    items.push(0x2c);
                }
                proof {
                    assert(decreases_to!(*op => op->variants));
                    assert(decreases_to!(op->variants => variants@));
                    assert(decreases_to!(variants@ => variants@[i as int]));
                }
                write_variant(&mut items, &variants[i]);
                let ghost next = variants@.subrange(0, i + 1);
                assert(next.subrange(0, next.len() - 1) =~= variants@.subrange(0, i as int));
                assert(next[next.len() - 1] == variants@[i as int]);
                assert(items@ =~= seq![0x5bu8] + variant_items(next));
                i = i + 1;
            }
            items.push(0x5d);
            assert(variants@.subrange(0, variants@.len() as int) =~= variants@);
            assert(items@ =~= seq![0x5bu8] + variant_items(variants@) + seq![0x5du8]);
            let st = write_member_bytes(out, st, "variants", items.as_slice());
            end_object(out, st);
        },
        ResponseOperation::AdvancePlan { .. } => write_calls(out, op),
        ResponseOperation::FunctionCallFromRoles { .. } => write_calls(out, op),
        ResponseOperation::CustomToolCallFromRoles { .. } => write_calls(out, op),
        ResponseOperation::ProjectSelectedValue { .. } => write_projections(out, op),
        ResponseOperation::ProjectStatus { .. } => write_projections(out, op),
        ResponseOperation::ComposeCollection { .. } => write_projections(out, op),
        _ => write_routines(out, op),
    }
}

fn write_variant(out: &mut Vec<u8>, v: &ResponseConsensusVariant)
    ensures
        final(out)@ == old(out)@ + variant_json(*v),
    decreases v, 0int,
{
    let st = begin_object(out);
    let st = if v.allowed_layout_sha256.len() == 0 {
        st
    } else {
        write_member(out, st, "allowed_layout_sha256", &v.allowed_layout_sha256)
    };
    let mut program_bytes: Vec<u8> = Vec::new();
    proof {
        assert(decreases_to!(*v => v.program));
    }
    write_program(&mut program_bytes, &v.program);
    assert(program_bytes@ =~= program_json(v.program));
    let st = write_member_bytes(out, st, "program", program_bytes.as_slice());
    let st = if v.required_request_atom_ids.len() == 0 {
        st
    } else {
        write_member(out, st, "required_request_atom_ids", &v.required_request_atom_ids)
    };
    end_object(out, st);
}

impl CanonicalJson for ResponseProgram {
    open spec fn json(&self) -> Seq<u8> {
        program_json(*self)
    }

    fn write_json(&self, out: &mut Vec<u8>) {
        write_program(out, self);
    }
}

} // verus!
