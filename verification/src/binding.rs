//! Typed binding predicates of protocol roles.
use vstd::prelude::*;
use crate::text::utf8;
use crate::json::{CanonicalJson, json_str, write_raw, write_str};

verus! {

#[derive(Clone, Copy, Debug, PartialEq, Eq, PartialOrd, Ord, Hash, Structural)]
pub enum BindingCompletionStateV1 {
    Unresolved,
    Completed,
    Unknown,
}

#[derive(Clone, Copy, Debug, PartialEq, Eq, PartialOrd, Ord, Hash, Structural)]
pub enum BindingCapabilityClassV1 {
    Absent,
    Single,
    Multiple,
}

#[derive(Clone, Copy, Debug, PartialEq, Eq, PartialOrd, Ord, Hash, Structural)]
pub enum BindingValueTypeV1 {
    String,
    Integer,
    Boolean,
    Identifier,
}

#[derive(Clone, Copy, Debug, PartialEq, Eq, PartialOrd, Ord, Hash, Structural)]
pub enum BindingSourceEventClassV1 {
    Textual,
    Structured,
    Mixed,
    Scalar,
    Unknown,
}

#[derive(Clone, Copy, Debug, PartialEq, Eq, PartialOrd, Ord, Hash, Structural)]
pub enum BindingCallLineageV1 {
    SameValueAcrossEvents,
    SharedOpaqueAnchor,
    Unlinked,
    Unknown,
}

#[derive(Clone, Copy, Debug, PartialEq, Eq, PartialOrd, Ord, Hash, Structural)]
pub enum BindingRequestRelationV1 {
    Mentioned,
    NotMentioned,
    RequestAbsent,
}

#[derive(Clone, Debug, PartialEq, Eq, PartialOrd, Ord)]
pub enum BindingPredicateV1 {
    SourceEventClass { value: BindingSourceEventClassV1 },
    CallLineage { value: BindingCallLineageV1 },
    CapabilityClass { value: BindingCapabilityClassV1 },
    TemporalDistance { value: u16 },
    CompletionState { value: BindingCompletionStateV1 },
    EventCandidateCardinality { value: u16 },
    ValueType { value: BindingValueTypeV1 },
    RequestRelation { value: BindingRequestRelationV1 },
    TopologyNeighborhood { root_sha256: String },
}

impl CanonicalJson for BindingCompletionStateV1 {
    open spec fn json(&self) -> Seq<u8> {
        match self {
            BindingCompletionStateV1::Unresolved => json_str("unresolved"@),
            BindingCompletionStateV1::Completed => json_str("completed"@),
            BindingCompletionStateV1::Unknown => json_str("unknown"@),
        }
    }

    fn write_json(&self, out: &mut Vec<u8>) {
        match self {
            BindingCompletionStateV1::Unresolved => write_str(out, "unresolved"),
            BindingCompletionStateV1::Completed => write_str(out, "completed"),
            BindingCompletionStateV1::Unknown => write_str(out, "unknown"),
        }
    }
}

impl CanonicalJson for BindingCapabilityClassV1 {
    open spec fn json(&self) -> Seq<u8> {
        match self {
            BindingCapabilityClassV1::Absent => json_str("none"@),
            BindingCapabilityClassV1::Single => json_str("single"@),
            BindingCapabilityClassV1::Multiple => json_str("multiple"@),
        }
    }

    fn write_json(&self, out: &mut Vec<u8>) {
        match self {
            BindingCapabilityClassV1::Absent => write_str(out, "none"),
            BindingCapabilityClassV1::Single => write_str(out, "single"),
            BindingCapabilityClassV1::Multiple => write_str(out, "multiple"),
        }
    }
}

impl CanonicalJson for BindingValueTypeV1 {
    open spec fn json(&self) -> Seq<u8> {
        match self {
            BindingValueTypeV1::String => json_str("string"@),
            BindingValueTypeV1::Integer => json_str("integer"@),
            BindingValueTypeV1::Boolean => json_str("boolean"@),
            BindingValueTypeV1::Identifier => json_str("identifier"@),
        }
    }

    fn write_json(&self, out: &mut Vec<u8>) {
        match self {
            BindingValueTypeV1::String => write_str(out, "string"),
            BindingValueTypeV1::Integer => write_str(out, "integer"),
            BindingValueTypeV1::Boolean => write_str(out, "boolean"),
            BindingValueTypeV1::Identifier => write_str(out, "identifier"),
        }
    }
}

impl CanonicalJson for BindingSourceEventClassV1 {
    open spec fn json(&self) -> Seq<u8> {
        match self {
            BindingSourceEventClassV1::Textual => json_str("textual"@),
            BindingSourceEventClassV1::Structured => json_str("structured"@),
            BindingSourceEventClassV1::Mixed => json_str("mixed"@),
            BindingSourceEventClassV1::Scalar => json_str("scalar"@),
            BindingSourceEventClassV1::Unknown => json_str("unknown"@),
        }
    }

    fn write_json(&self, out: &mut Vec<u8>) {
        match self {
            BindingSourceEventClassV1::Textual => write_str(out, "textual"),
            BindingSourceEventClassV1::Structured => write_str(out, "structured"),
            BindingSourceEventClassV1::Mixed => write_str(out, "mixed"),
            BindingSourceEventClassV1::Scalar => write_str(out, "scalar"),
            BindingSourceEventClassV1::Unknown => write_str(out, "unknown"),
        }
    }
}

impl CanonicalJson for BindingCallLineageV1 {
    open spec fn json(&self) -> Seq<u8> {
        match self {
            BindingCallLineageV1::SameValueAcrossEvents => json_str("same_value_across_events"@),
            BindingCallLineageV1::SharedOpaqueAnchor => json_str("shared_opaque_anchor"@),
            BindingCallLineageV1::Unlinked => json_str("unlinked"@),
            BindingCallLineageV1::Unknown => json_str("unknown"@),
        }
    }

    fn write_json(&self, out: &mut Vec<u8>) {
        match self {
            BindingCallLineageV1::SameValueAcrossEvents => write_str(out, "same_value_across_events"),
            BindingCallLineageV1::SharedOpaqueAnchor => write_str(out, "shared_opaque_anchor"),
            BindingCallLineageV1::Unlinked => write_str(out, "unlinked"),
            BindingCallLineageV1::Unknown => write_str(out, "unknown"),
        }
    }
}

impl CanonicalJson for BindingRequestRelationV1 {
    open spec fn json(&self) -> Seq<u8> {
        match self {
            BindingRequestRelationV1::Mentioned => json_str("mentioned"@),
            BindingRequestRelationV1::NotMentioned => json_str("not_mentioned"@),
            BindingRequestRelationV1::RequestAbsent => json_str("request_absent"@),
        }
    }

    fn write_json(&self, out: &mut Vec<u8>) {
        match self {
            BindingRequestRelationV1::Mentioned => write_str(out, "mentioned"),
            BindingRequestRelationV1::NotMentioned => write_str(out, "not_mentioned"),
            BindingRequestRelationV1::RequestAbsent => write_str(out, "request_absent"),
        }
    }
}

/// `{"kind":"<kind>","<key>":<value>}`: keys in sorted order.
pub open spec fn tagged_value(kind: Seq<char>, value: Seq<u8>) -> Seq<u8> {
    utf8("{\"kind\":"@) + json_str(kind) + utf8(",\"value\":"@) + value + utf8("}"@)
}

impl CanonicalJson for BindingPredicateV1 {
    open spec fn json(&self) -> Seq<u8> {
        match self {
            BindingPredicateV1::SourceEventClass { value } => tagged_value("source_event_class"@, value.json()),
            BindingPredicateV1::CallLineage { value } => tagged_value("call_lineage"@, value.json()),
            BindingPredicateV1::CapabilityClass { value } => tagged_value("capability_class"@, value.json()),
            BindingPredicateV1::TemporalDistance { value } => tagged_value("temporal_distance"@, value.json()),
            BindingPredicateV1::CompletionState { value } => tagged_value("completion_state"@, value.json()),
            BindingPredicateV1::EventCandidateCardinality { value } =>
                tagged_value("event_candidate_cardinality"@, value.json()),
            BindingPredicateV1::ValueType { value } => tagged_value("value_type"@, value.json()),
            BindingPredicateV1::RequestRelation { value } => tagged_value("request_relation"@, value.json()),
            BindingPredicateV1::TopologyNeighborhood { root_sha256 } =>
                utf8("{\"kind\":"@) + json_str("topology_neighborhood"@) + utf8(",\"root_sha256\":"@)
                    + json_str(root_sha256@) + utf8("}"@),
        }
    }

    fn write_json(&self, out: &mut Vec<u8>) {
        match self {
            BindingPredicateV1::SourceEventClass { value } => write_tagged(out, "source_event_class", value),
            BindingPredicateV1::CallLineage { value } => write_tagged(out, "call_lineage", value),
            BindingPredicateV1::CapabilityClass { value } => write_tagged(out, "capability_class", value),
            BindingPredicateV1::TemporalDistance { value } => write_tagged(out, "temporal_distance", value),
            BindingPredicateV1::CompletionState { value } => write_tagged(out, "completion_state", value),
            BindingPredicateV1::EventCandidateCardinality { value } =>
                write_tagged(out, "event_candidate_cardinality", value),
            BindingPredicateV1::ValueType { value } => write_tagged(out, "value_type", value),
            BindingPredicateV1::RequestRelation { value } => write_tagged(out, "request_relation", value),
            BindingPredicateV1::TopologyNeighborhood { root_sha256 } => {
                write_raw(out, "{\"kind\":");
                write_str(out, "topology_neighborhood");
                write_raw(out, ",\"root_sha256\":");
                write_str(out, root_sha256.as_str());
                write_raw(out, "}");
                assert(final(out)@ =~= old(out)@ + self.json());
            },
        }
    }
}

fn write_tagged<T: CanonicalJson>(out: &mut Vec<u8>, kind: &str, value: &T)
    ensures
        final(out)@ == old(out)@ + tagged_value(kind@, value.json()),
{
    write_raw(out, "{\"kind\":");
    write_str(out, kind);
    write_raw(out, ",\"value\":");
    value.write_json(out);
    write_raw(out, "}");
    assert(final(out)@ =~= old(out)@ + tagged_value(kind@, value.json()));
}

} // verus!
