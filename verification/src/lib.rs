//! Operator kernel: typed operator structures, canonical identities,
//! bounded program contracts and fail-closed validation.
use vstd::prelude::*;

pub mod text;
pub mod scan;
pub mod digest;
pub mod json;
pub mod sha256_commitment;
pub mod static_text;
pub mod binding;
pub mod contracts;
pub mod program;
pub mod selector_rules;
pub mod program_rules;
pub mod program_json;
pub mod canonical_operator_ir;
pub mod runtime_phase_control;
pub mod multi_source;
pub mod effect_law;
pub mod program_semantic_class;
pub mod operator_generation;
pub mod protocol_mode;
pub mod relation_routing;
pub mod structural_context;
pub mod structural_walk;
pub mod structural_projection;
pub mod executable_protocol_mode;
pub mod bound_protocol_action;
pub mod bound_protocol_program;

verus! {

} // verus!
