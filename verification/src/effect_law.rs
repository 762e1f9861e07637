//! Canonical effect laws: a bounded topology of effect nodes and edges, a
//! sorted relation program, and the roots that bind them.
use vstd::prelude::*;
use crate::text::{utf8, str_eq, lemma_utf8_injective, bytes_eq};
use crate::json::{
    CanonicalJson, json_str, json_array, object, write_str, write_array, begin_object,
    write_member, end_object, json_identity, canonical_json_bytes, canonical_json_sha256,
};
use crate::digest::{is_nonzero_sha256_text, valid_nonzero_sha256, sha256_hex};
use crate::scan::{lex_lt, bytes_lt};
use crate::contracts::AtomSource;

verus! {

pub const CANONICAL_EFFECT_LAW_SCHEMA_V3: &'static str = "nando.canonical-effect-law.v3";
pub const EFFECT_LAW_IR_VERSION_V3: u16 = 3;
pub const PROTOCOL_FACET_SCHEMA_V3: &'static str = "nando.effect-protocol-facet.v3";
pub const EFFECT_LAW_ACTION_PHASE_V3: u16 = 2;
pub const EFFECT_LAW_MAX_PROTOCOL_FACET_ATOMS_V3: usize = 512;

pub const EFFECT_REL_EQUAL: u16 = 0x1001;
pub const EFFECT_REL_COPY: u16 = 0x1002;
pub const EFFECT_REL_CONSUME: u16 = 0x1003;
pub const EFFECT_REL_REQUIRE: u16 = 0x1004;
pub const EFFECT_REL_CONSTANT: u16 = 0x1005;

pub const EFFECT_OPERATION_CALL_V3: u16 = 0x2001;
pub const EFFECT_OPERATION_PROJECT_V3: u16 = 0x2002;
pub const EFFECT_OPERATION_STATUS_V3: u16 = 0x2003;
pub const EFFECT_OPERATION_PLAN_ADVANCE_V3: u16 = 0x2004;

pub const EFFECT_ATOM_PRECONDITION: u16 = 0x3001;
pub const EFFECT_ATOM_ACTION_RELATION: u16 = 0x3002;
pub const EFFECT_ATOM_POSTCONDITION: u16 = 0x3003;
pub const EFFECT_ATOM_RENDERER: u16 = 0x3004;
pub const EFFECT_ATOM_TEMPORAL: u16 = 0x3005;
pub const EFFECT_ATOM_CARDINALITY: u16 = 0x3006;
pub const EFFECT_ATOM_PHYSICAL_SURFACE: u16 = 0x3007;

pub const EFFECT_VALUE_STRING_V3: u16 = 0x4001;
pub const EFFECT_VALUE_INTEGER_V3: u16 = 0x4002;
pub const EFFECT_VALUE_BOOLEAN_V3: u16 = 0x4003;
pub const EFFECT_VALUE_IDENTIFIER_V3: u16 = 0x4004;
pub const EFFECT_VALUE_COLLECTION_V3: u16 = 0x4005;
pub const EFFECT_VALUE_OPERATION_V3: u16 = 0x4006;

pub const MAX_EFFECT_NODES_V3: usize = 32;
pub const MAX_EFFECT_EDGES_V3: usize = 256;

#[derive(Clone, Copy, Debug, PartialEq, Eq, PartialOrd, Ord, Structural)]
pub enum EffectSource {
    Request,
    Observation,
    Action,
    Outcome,
    Derived,
}

/// The effect source of an atom source.
pub open spec fn spec_effect_source(a: AtomSource) -> EffectSource {
    match a {
        AtomSource::Request => EffectSource::Request,
        AtomSource::Observation => EffectSource::Observation,
        AtomSource::Action => EffectSource::Action,
        AtomSource::Outcome => EffectSource::Outcome,
    }
}

impl From<AtomSource> for EffectSource {
    fn from(value: AtomSource) -> (r: Self)
        ensures
            r == spec_effect_source(value),
    {
        match value {
            AtomSource::Request => EffectSource::Request,
            AtomSource::Observation => EffectSource::Observation,
            AtomSource::Action => EffectSource::Action,
            AtomSource::Outcome => EffectSource::Outcome,
        }
    }
}

impl vstd::std_specs::convert::FromSpecImpl<AtomSource> for EffectSource {
    open spec fn obeys_from_spec() -> bool {
        true
    }

    open spec fn from_spec(v: AtomSource) -> EffectSource {
        spec_effect_source(v)
    }
}

#[derive(Clone, Debug, PartialEq, Eq, PartialOrd, Ord)]
pub struct CanonicalEffectNodeV3 {
    pub canonical_node: u16,
    pub source: EffectSource,
    pub node_kind_code: u16,
    pub value_type_code: u16,
    pub unique: bool,
    pub operation_code: Option<u16>,
}

#[derive(Clone, Debug, PartialEq, Eq, PartialOrd, Ord)]
pub struct CanonicalEffectEdgeV3 {
    pub from: u16,
    pub to: u16,
    pub relation_code: u16,
}

#[derive(Clone, Debug, PartialEq, Eq, PartialOrd, Ord)]
pub struct CanonicalRelationClauseV3 {
    pub relation_code: u16,
    pub lhs: u16,
    pub rhs: Option<u16>,
    pub argument_ordinal: Option<u16>,
    pub constant_type_code: Option<u16>,
    pub constant_sha256: Option<String>,
}

#[derive(Clone, Debug, PartialEq, Eq, PartialOrd, Ord)]
pub struct CanonicalNodeMappingV3 {
    pub physical_node: u16,
    pub canonical_node: u16,
}

#[derive(Clone, Debug, PartialEq, Eq)]
pub struct CanonicalEffectLawV3 {
    pub schema: String,
    pub ir_version: u16,
    pub dictionary_root_sha256: String,
    pub quotient_hypothesis_root_sha256: String,
    pub topology_nodes: Vec<CanonicalEffectNodeV3>,
    pub topology_edges: Vec<CanonicalEffectEdgeV3>,
    pub relation_program: Vec<CanonicalRelationClauseV3>,
    pub effect_invariant_root_sha256: String,
    pub preserved_frame_root_sha256: String,
    pub action_equivalence_root_sha256: String,
}

#[derive(Clone, Debug, PartialEq, Eq, PartialOrd, Ord)]
pub struct EffectLawIdV3(pub String);

#[derive(Clone, Copy, Debug, PartialEq, Eq, Structural)]
pub enum EffectLawV3Error {
    InvalidCandidate,
    InvalidCaptureReceipt,
    InvalidParityReceipt,
    InvalidVerifierReceipt,
    InvalidTrustRoot,
    EffectDeltaDisagreement,
    IncompleteEffectDelta,
    InvalidDictionary,
    InsufficientIndependentEvidence,
    NoInvariantQuotient,
    AmbiguousActionEquivalence,
    OverBudget,
    InvalidRestartBundle,
    Serialization,
}

impl EffectLawV3Error {
    /// What the error says, in words.
    pub fn message(&self) -> (r: &'static str)
        ensures
            r@ == (match self {
                EffectLawV3Error::InvalidCandidate => "effect observation candidate is invalid"@,
                EffectLawV3Error::InvalidCaptureReceipt => "capture receipt is missing or unresolved"@,
                EffectLawV3Error::InvalidParityReceipt => "runtime parity receipt is missing or invalid"@,
                EffectLawV3Error::InvalidVerifierReceipt => "independent verifier receipt is invalid"@,
                EffectLawV3Error::InvalidTrustRoot => "effect evidence is not bound to the external trust root"@,
                EffectLawV3Error::EffectDeltaDisagreement => "independently observed effect delta disagrees with the teacher claim"@,
                EffectLawV3Error::IncompleteEffectDelta => "effect delta lacks required proof-bearing relations"@,
                EffectLawV3Error::InvalidDictionary => "effect dictionary is invalid"@,
                EffectLawV3Error::InsufficientIndependentEvidence => "effect quotient lacks multidimensional independent evidence"@,
                EffectLawV3Error::NoInvariantQuotient => "observations do not share one invariant effect law"@,
                EffectLawV3Error::AmbiguousActionEquivalence => "symmetric role mappings produce multiple action classes"@,
                EffectLawV3Error::OverBudget => "effect law v3 exceeds a bounded search limit"@,
                EffectLawV3Error::InvalidRestartBundle => "effect law restart bundle is invalid"@,
                EffectLawV3Error::Serialization => "effect law v3 serialization failed"@,
            }),
    {
        match self {
            EffectLawV3Error::InvalidCandidate => "effect observation candidate is invalid",
            EffectLawV3Error::InvalidCaptureReceipt => "capture receipt is missing or unresolved",
            EffectLawV3Error::InvalidParityReceipt => "runtime parity receipt is missing or invalid",
            EffectLawV3Error::InvalidVerifierReceipt => "independent verifier receipt is invalid",
            EffectLawV3Error::InvalidTrustRoot => "effect evidence is not bound to the external trust root",
            EffectLawV3Error::EffectDeltaDisagreement => "independently observed effect delta disagrees with the teacher claim",
            EffectLawV3Error::IncompleteEffectDelta => "effect delta lacks required proof-bearing relations",
            EffectLawV3Error::InvalidDictionary => "effect dictionary is invalid",
            EffectLawV3Error::InsufficientIndependentEvidence => "effect quotient lacks multidimensional independent evidence",
            EffectLawV3Error::NoInvariantQuotient => "observations do not share one invariant effect law",
            EffectLawV3Error::AmbiguousActionEquivalence => "symmetric role mappings produce multiple action classes",
            EffectLawV3Error::OverBudget => "effect law v3 exceeds a bounded search limit",
            EffectLawV3Error::InvalidRestartBundle => "effect law restart bundle is invalid",
            EffectLawV3Error::Serialization => "effect law v3 serialization failed",
        }
    }
}

// ---------------------------------------------------------------- canonical JSON

impl CanonicalJson for EffectSource {
    open spec fn json(&self) -> Seq<u8> {
        match self {
            EffectSource::Request => json_str("request"@),
            EffectSource::Observation => json_str("observation"@),
            EffectSource::Action => json_str("action"@),
            EffectSource::Outcome => json_str("outcome"@),
            EffectSource::Derived => json_str("derived"@),
        }
    }

    fn write_json(&self, out: &mut Vec<u8>) {
        match self {
            EffectSource::Request => write_str(out, "request"),
            EffectSource::Observation => write_str(out, "observation"),
            EffectSource::Action => write_str(out, "action"),
            EffectSource::Outcome => write_str(out, "outcome"),
            EffectSource::Derived => write_str(out, "derived"),
        }
    }
}

impl CanonicalJson for CanonicalEffectNodeV3 {
    open spec fn json(&self) -> Seq<u8> {
        object(seq![("canonical_node"@, self.canonical_node.json())]
            .push(("node_kind_code"@, self.node_kind_code.json()))
            .push(("operation_code"@, self.operation_code.json()))
            .push(("source"@, self.source.json()))
            .push(("unique"@, self.unique.json()))
            .push(("value_type_code"@, self.value_type_code.json())))
    }

    fn write_json(&self, out: &mut Vec<u8>) {
        let st = begin_object(out);
        let st = write_member(out, st, "canonical_node", &self.canonical_node);
        let st = write_member(out, st, "node_kind_code", &self.node_kind_code);
        let st = write_member(out, st, "operation_code", &self.operation_code);
        let st = write_member(out, st, "source", &self.source);
        let st = write_member(out, st, "unique", &self.unique);
        let st = write_member(out, st, "value_type_code", &self.value_type_code);
        end_object(out, st);
    }
}

impl CanonicalJson for CanonicalEffectEdgeV3 {
    open spec fn json(&self) -> Seq<u8> {
        object(seq![("from"@, self.from.json())]
            .push(("relation_code"@, self.relation_code.json()))
            .push(("to"@, self.to.json())))
    }

    fn write_json(&self, out: &mut Vec<u8>) {
        let st = begin_object(out);
        let st = write_member(out, st, "from", &self.from);
        let st = write_member(out, st, "relation_code", &self.relation_code);
        let st = write_member(out, st, "to", &self.to);
        end_object(out, st);
    }
}

impl CanonicalJson for CanonicalRelationClauseV3 {
    open spec fn json(&self) -> Seq<u8> {
        object(seq![("argument_ordinal"@, self.argument_ordinal.json())]
            .push(("constant_sha256"@, self.constant_sha256.json()))
            .push(("constant_type_code"@, self.constant_type_code.json()))
            .push(("lhs"@, self.lhs.json()))
            .push(("relation_code"@, self.relation_code.json()))
            .push(("rhs"@, self.rhs.json())))
    }

    fn write_json(&self, out: &mut Vec<u8>) {
        let st = begin_object(out);
        let st = write_member(out, st, "argument_ordinal", &self.argument_ordinal);
        let st = write_member(out, st, "constant_sha256", &self.constant_sha256);
        let st = write_member(out, st, "constant_type_code", &self.constant_type_code);
        let st = write_member(out, st, "lhs", &self.lhs);
        let st = write_member(out, st, "relation_code", &self.relation_code);
        let st = write_member(out, st, "rhs", &self.rhs);
        end_object(out, st);
    }
}

impl CanonicalJson for CanonicalEffectLawV3 {
    open spec fn json(&self) -> Seq<u8> {
        object(seq![("action_equivalence_root_sha256"@, self.action_equivalence_root_sha256.json())]
            .push(("dictionary_root_sha256"@, self.dictionary_root_sha256.json()))
            .push(("effect_invariant_root_sha256"@, self.effect_invariant_root_sha256.json()))
            .push(("ir_version"@, self.ir_version.json()))
            .push(("preserved_frame_root_sha256"@, self.preserved_frame_root_sha256.json()))
            .push(("quotient_hypothesis_root_sha256"@, self.quotient_hypothesis_root_sha256.json()))
            .push(("relation_program"@, self.relation_program.json()))
            .push(("schema"@, self.schema.json()))
            .push(("topology_edges"@, self.topology_edges.json()))
            .push(("topology_nodes"@, self.topology_nodes.json())))
    }

    fn write_json(&self, out: &mut Vec<u8>) {
        let st = begin_object(out);
        let st = write_member(out, st, "action_equivalence_root_sha256", &self.action_equivalence_root_sha256);
        let st = write_member(out, st, "dictionary_root_sha256", &self.dictionary_root_sha256);
        let st = write_member(out, st, "effect_invariant_root_sha256", &self.effect_invariant_root_sha256);
        let st = write_member(out, st, "ir_version", &self.ir_version);
        let st = write_member(out, st, "preserved_frame_root_sha256", &self.preserved_frame_root_sha256);
        let st = write_member(out, st, "quotient_hypothesis_root_sha256", &self.quotient_hypothesis_root_sha256);
        let st = write_member(out, st, "relation_program", &self.relation_program);
        let st = write_member(out, st, "schema", &self.schema);
        let st = write_member(out, st, "topology_edges", &self.topology_edges);
        let st = write_member(out, st, "topology_nodes", &self.topology_nodes);
        end_object(out, st);
    }
}

impl CanonicalJson for EffectLawIdV3 {
    open spec fn json(&self) -> Seq<u8> {
        json_str(self.0@)
    }

    fn write_json(&self, out: &mut Vec<u8>) {
        write_str(out, self.0.as_str());
    }
}

// ---------------------------------------------------------------- identity and accessors

impl CanonicalEffectLawV3 {
    /// The canonical JSON bytes of the law.
    pub fn canonical_bytes(&self) -> (r: Result<Vec<u8>, EffectLawV3Error>)
        ensures
            r matches Ok(b) && b@ == self.json(),
    {
        Ok(canonical_json_bytes(self))
    }

    /// The identity of the law: the SHA-256 of its canonical bytes.
    pub fn effect_law_id(&self) -> (r: Result<EffectLawIdV3, EffectLawV3Error>)
        ensures
            r matches Ok(id) && utf8(id.0@) == json_identity(self.json()),
    {
        Ok(EffectLawIdV3(canonical_json_sha256(self)))
    }

    pub fn schema(&self) -> (r: &str)
        ensures
            r@ == self.schema@,
    {
        self.schema.as_str()
    }

    pub fn ir_version(&self) -> (r: u16)
        ensures
            r == self.ir_version,
    {
        self.ir_version
    }

    pub fn dictionary_root_sha256(&self) -> (r: &str)
        ensures
            r@ == self.dictionary_root_sha256@,
    {
        self.dictionary_root_sha256.as_str()
    }

    pub fn quotient_hypothesis_root_sha256(&self) -> (r: &str)
        ensures
            r@ == self.quotient_hypothesis_root_sha256@,
    {
        self.quotient_hypothesis_root_sha256.as_str()
    }

    pub fn topology_nodes(&self) -> (r: &[CanonicalEffectNodeV3])
        ensures
            r@ == self.topology_nodes@,
    {
        self.topology_nodes.as_slice()
    }

    pub fn topology_edges(&self) -> (r: &[CanonicalEffectEdgeV3])
        ensures
            r@ == self.topology_edges@,
    {
        self.topology_edges.as_slice()
    }

    pub fn relation_program(&self) -> (r: &[CanonicalRelationClauseV3])
        ensures
            r@ == self.relation_program@,
    {
        self.relation_program.as_slice()
    }

    pub fn effect_invariant_root_sha256(&self) -> (r: &str)
        ensures
            r@ == self.effect_invariant_root_sha256@,
    {
        self.effect_invariant_root_sha256.as_str()
    }

    pub fn preserved_frame_root_sha256(&self) -> (r: &str)
        ensures
            r@ == self.preserved_frame_root_sha256@,
    {
        self.preserved_frame_root_sha256.as_str()
    }

    pub fn action_equivalence_root_sha256(&self) -> (r: &str)
        ensures
            r@ == self.action_equivalence_root_sha256@,
    {
        self.action_equivalence_root_sha256.as_str()
    }
}

impl EffectLawIdV3 {
    pub fn as_str(&self) -> (r: &str)
        ensures
            r@ == self.0@,
    {
        self.0.as_str()
    }
}

// ---------------------------------------------------------------- restart validation

pub open spec fn opt_lt(a: Option<u16>, b: Option<u16>) -> bool {
    match (a, b) {
        (None, Some(_)) => true,
        (Some(x), Some(y)) => x < y,
        _ => false,
    }
}

pub open spec fn opt_text_lt(a: Option<String>, b: Option<String>) -> bool {
    match (a, b) {
        (None, Some(_)) => true,
        (Some(x), Some(y)) => lex_lt(utf8(x@), utf8(y@)),
        _ => false,
    }
}

/// The order of edges: by source, target, then relation code.
pub open spec fn effect_edge_lt(a: CanonicalEffectEdgeV3, b: CanonicalEffectEdgeV3) -> bool {
    if a.from != b.from {
        a.from < b.from
    } else if a.to != b.to {
        a.to < b.to
    } else {
        a.relation_code < b.relation_code
    }
}

/// The order of clauses: field by field, an absent value first.
pub open spec fn clause_lt(a: CanonicalRelationClauseV3, b: CanonicalRelationClauseV3) -> bool {
    if a.relation_code != b.relation_code {
        a.relation_code < b.relation_code
    } else if a.lhs != b.lhs {
        a.lhs < b.lhs
    } else if a.rhs != b.rhs {
        opt_lt(a.rhs, b.rhs)
    } else if a.argument_ordinal != b.argument_ordinal {
        opt_lt(a.argument_ordinal, b.argument_ordinal)
    } else if a.constant_type_code != b.constant_type_code {
        opt_lt(a.constant_type_code, b.constant_type_code)
    } else {
        opt_text_lt(a.constant_sha256, b.constant_sha256)
    }
}

fn opt_less(a: Option<u16>, b: Option<u16>) -> (r: bool)
    ensures
        r == opt_lt(a, b),
{
    match (a, b) {
        (None, Some(_)) => true,
        (Some(x), Some(y)) => x < y,
        _ => false,
    }
}

fn opt_text_less(a: &Option<String>, b: &Option<String>) -> (r: bool)
    ensures
        r == opt_text_lt(*a, *b),
{
    match (a, b) {
        (None, Some(_)) => true,
        (Some(x), Some(y)) => bytes_lt(x.as_str().as_bytes(), y.as_str().as_bytes()),
        _ => false,
    }
}

fn clause_less(a: &CanonicalRelationClauseV3, b: &CanonicalRelationClauseV3) -> (r: bool)
    ensures
        r == clause_lt(*a, *b),
{
    if a.relation_code != b.relation_code {
        a.relation_code < b.relation_code
    } else if a.lhs != b.lhs {
        a.lhs < b.lhs
    } else if a.rhs != b.rhs {
        opt_less(a.rhs, b.rhs)
    } else if a.argument_ordinal != b.argument_ordinal {
        opt_less(a.argument_ordinal, b.argument_ordinal)
    } else if a.constant_type_code != b.constant_type_code {
        opt_less(a.constant_type_code, b.constant_type_code)
    } else {
        opt_text_less(&a.constant_sha256, &b.constant_sha256)
    }
}

pub open spec fn edges_adjacent_lt(s: Seq<CanonicalEffectEdgeV3>, i: int) -> bool {
    effect_edge_lt(s[i], s[i + 1])
}

pub open spec fn clauses_adjacent_lt(s: Seq<CanonicalRelationClauseV3>, i: int) -> bool {
    clause_lt(s[i], s[i + 1])
}

/// The bounded shape of a restart bundle: 1 to 32 nodes numbered by their
/// position, at most 256 edges and 320 clauses, both strictly ordered.
pub open spec fn law_shape_ok(law: CanonicalEffectLawV3) -> bool {
    &&& law.topology_nodes@.len() >= 1
    &&& law.topology_nodes@.len() <= 32
    &&& law.topology_edges@.len() <= 256
    &&& law.relation_program@.len() <= 320
    &&& forall|i: int| 0 <= i < law.topology_nodes@.len() ==> (#[trigger] law.topology_nodes@[i]).canonical_node == i
    &&& forall|i: int| 0 <= i && i + 1 < law.topology_edges@.len() ==> #[trigger] edges_adjacent_lt(law.topology_edges@, i)
    &&& forall|i: int| 0 <= i && i + 1 < law.relation_program@.len() ==> #[trigger] clauses_adjacent_lt(law.relation_program@, i)
}

/// An edge joins known nodes with a non-zero relation.
pub open spec fn effect_edge_ok(e: CanonicalEffectEdgeV3, n: int) -> bool {
    (e.from as int) < n && (e.to as int) < n && e.relation_code != 0
}

/// A clause reads known nodes with a non-zero relation; a constant has a
/// non-zero digest and a type.
pub open spec fn clause_ok(c: CanonicalRelationClauseV3, n: int) -> bool {
    &&& (c.lhs as int) < n
    &&& (match c.rhs { Some(r) => (r as int) < n, None => true })
    &&& c.relation_code != 0
    &&& (match c.constant_sha256 { Some(d) => is_nonzero_sha256_text(utf8(d@)), None => true })
    &&& !(c.constant_sha256 is Some && c.constant_type_code is None)
}

/// The JSON array that the action equivalence root covers.
pub open spec fn action_root_json(law: CanonicalEffectLawV3) -> Seq<u8> {
    seq![0x5bu8] + json_array(law.relation_program@) + seq![0x2cu8] + json_str(law.effect_invariant_root_sha256@)
        + seq![0x2cu8] + json_str(law.preserved_frame_root_sha256@) + seq![0x5du8]
}

/// What validating a restart bundle gives.
pub open spec fn spec_validate_law(law: CanonicalEffectLawV3) -> Result<(), EffectLawV3Error> {
    let n = law.topology_nodes@.len() as int;
    if !law_shape_ok(law) {
        Err(EffectLawV3Error::InvalidRestartBundle)
    } else if (exists|i: int| 0 <= i < law.topology_edges@.len() && !effect_edge_ok(#[trigger] law.topology_edges@[i], n))
        || (exists|i: int| 0 <= i < law.relation_program@.len() && !clause_ok(#[trigger] law.relation_program@[i], n)) {
        Err(EffectLawV3Error::InvalidRestartBundle)
    } else if utf8(law.action_equivalence_root_sha256@) != json_identity(action_root_json(law)) {
        Err(EffectLawV3Error::InvalidRestartBundle)
    } else {
        Ok(())
    }
}

/// Whether a law read from bytes is accepted: the bytes are exactly its
/// canonical JSON, it has the schema and version of this law format, and
/// its five roots are non-zero SHA-256 texts.
pub open spec fn decoded_law_ok(law: CanonicalEffectLawV3, bytes: Seq<u8>) -> bool {
    &&& law.json() == bytes
    &&& law.schema@ == CANONICAL_EFFECT_LAW_SCHEMA_V3@
    &&& law.ir_version == EFFECT_LAW_IR_VERSION_V3
    &&& is_nonzero_sha256_text(utf8(law.dictionary_root_sha256@))
    &&& is_nonzero_sha256_text(utf8(law.quotient_hypothesis_root_sha256@))
    &&& is_nonzero_sha256_text(utf8(law.effect_invariant_root_sha256@))
    &&& is_nonzero_sha256_text(utf8(law.preserved_frame_root_sha256@))
    &&& is_nonzero_sha256_text(utf8(law.action_equivalence_root_sha256@))
}

/// Accepts a law decoded from the given bytes only when the bytes are its
/// canonical encoding and its schema, version and roots are well formed;
/// anything else is refused as an invalid candidate.
pub fn accept_decoded_effect_law_v3(law: CanonicalEffectLawV3, bytes: &[u8]) -> (r: Result<CanonicalEffectLawV3, EffectLawV3Error>)
    ensures
        decoded_law_ok(law, bytes@) ==> r == Ok::<CanonicalEffectLawV3, EffectLawV3Error>(law),
        !decoded_law_ok(law, bytes@) ==> r == Err::<CanonicalEffectLawV3, EffectLawV3Error>(
            EffectLawV3Error::InvalidCandidate,
        ),
{
    let canonical = canonical_json_bytes(&law);
    if !bytes_eq(canonical.as_slice(), bytes) || !str_eq(law.schema.as_str(), CANONICAL_EFFECT_LAW_SCHEMA_V3)
        || law.ir_version != EFFECT_LAW_IR_VERSION_V3
        || !valid_nonzero_sha256(law.dictionary_root_sha256.as_str())
        || !valid_nonzero_sha256(law.quotient_hypothesis_root_sha256.as_str())
        || !valid_nonzero_sha256(law.effect_invariant_root_sha256.as_str())
        || !valid_nonzero_sha256(law.preserved_frame_root_sha256.as_str())
        || !valid_nonzero_sha256(law.action_equivalence_root_sha256.as_str()) {
        return Err(EffectLawV3Error::InvalidCandidate);
    }
    Ok(law)
}

/// What a validated law guarantees: one to 32 nodes numbered in order, at
/// most 256 edges in strictly increasing order between known nodes with a
/// non-zero relation, clauses in strictly increasing order over known nodes
/// with a non-zero relation, and an action equivalence root that is the
/// digest of the clauses and the invariant and frame roots; so every edge
/// starts and ends at a node of the topology. A refused law is always
/// refused as an invalid restart bundle.
pub proof fn lemma_valid_law_shape(law: CanonicalEffectLawV3)
    ensures
        spec_validate_law(law) is Err ==> spec_validate_law(law) == Err::<(), EffectLawV3Error>(
            EffectLawV3Error::InvalidRestartBundle,
        ),
        spec_validate_law(law) is Ok ==> {
            let n = law.topology_nodes@.len() as int;
            &&& 1 <= n <= 32
            &&& forall|i: int| 0 <= i < n ==> (#[trigger] law.topology_nodes@[i]).canonical_node == i
            &&& law.topology_edges@.len() <= 256
            &&& forall|i: int| 0 <= i && i + 1 < law.topology_edges@.len()
                ==> #[trigger] edges_adjacent_lt(law.topology_edges@, i)
            &&& forall|i: int| 0 <= i && i + 1 < law.relation_program@.len()
                ==> #[trigger] clauses_adjacent_lt(law.relation_program@, i)
            &&& forall|i: int| 0 <= i < law.topology_edges@.len() ==> effect_edge_ok(#[trigger] law.topology_edges@[i], n)
            &&& forall|i: int| 0 <= i < law.relation_program@.len() ==> clause_ok(#[trigger] law.relation_program@[i], n)
            &&& utf8(law.action_equivalence_root_sha256@) == json_identity(action_root_json(law))
        },
        spec_validate_law(law) is Ok ==> forall|i: int| 0 <= i < law.topology_edges@.len() ==> {
            let e = #[trigger] law.topology_edges@[i];
            &&& (e.from as int) < law.topology_nodes@.len()
            &&& (e.to as int) < law.topology_nodes@.len()
            &&& e.relation_code != 0
        },
        spec_validate_law(law) is Ok ==> forall|i: int| 0 <= i < law.relation_program@.len() ==> {
            let c = #[trigger] law.relation_program@[i];
            &&& (c.lhs as int) < law.topology_nodes@.len()
            &&& (c.rhs matches Some(r) ==> (r as int) < law.topology_nodes@.len())
            &&& c.relation_code != 0
        },
{
    if spec_validate_law(law) is Ok {
        let n = law.topology_nodes@.len() as int;
        assert forall|i: int| 0 <= i < law.topology_edges@.len() implies effect_edge_ok(#[trigger] law.topology_edges@[i], n) by {}
        assert forall|i: int| 0 <= i < law.relation_program@.len() implies clause_ok(#[trigger] law.relation_program@[i], n) by {}
    }
}

#[verifier::loop_isolation(false)]
fn law_shape_exec(law: &CanonicalEffectLawV3) -> (r: bool)
    ensures
        r == law_shape_ok(*law),
{
    let nodes = law.topology_nodes.as_slice();
    let edges = law.topology_edges.as_slice();
    let clauses = law.relation_program.as_slice();
    if nodes.len() == 0 || nodes.len() > 32 || edges.len() > 256 || clauses.len() > 320 {
        return false;
    }
    let mut i: usize = 0;
    while i < nodes.len()
        invariant
            i <= nodes@.len(),
            forall|k: int| 0 <= k < i ==> (#[trigger] nodes@[k]).canonical_node == k,
        decreases nodes@.len() - i,
    {
        if nodes[i].canonical_node as usize != i {
            return false;
        }
        i = i + 1;
    }
    let mut i: usize = 0;
    while i < edges.len() && i + 1 < edges.len()
        invariant
            i <= edges@.len(),
            forall|k: int| 0 <= k < i && k + 1 < edges@.len() ==> #[trigger] edges_adjacent_lt(edges@, k),
        decreases edges@.len() - i,
    {
        let a = &edges[i];
        let b = &edges[i + 1];
        let lt = if a.from != b.from { a.from < b.from } else if a.to != b.to { a.to < b.to } else { a.relation_code < b.relation_code };
        if !lt {
            assert(!edges_adjacent_lt(edges@, i as int));
            return false;
        }
        i = i + 1;
    }
    let mut i: usize = 0;
    while i < clauses.len() && i + 1 < clauses.len()
        invariant
            i <= clauses@.len(),
            forall|k: int| 0 <= k < i && k + 1 < clauses@.len() ==> #[trigger] clauses_adjacent_lt(clauses@, k),
        decreases clauses@.len() - i,
    {
        if !clause_less(&clauses[i], &clauses[i + 1]) {
            assert(!clauses_adjacent_lt(clauses@, i as int));
            return false;
        }
        i = i + 1;
    }
    true
}

#[verifier::loop_isolation(false)]
fn law_references_exec(law: &CanonicalEffectLawV3) -> (r: bool)
    ensures
        r == !((exists|i: int| 0 <= i < law.topology_edges@.len() && !effect_edge_ok(#[trigger] law.topology_edges@[i], law.topology_nodes@.len() as int))
            || (exists|i: int| 0 <= i < law.relation_program@.len() && !clause_ok(#[trigger] law.relation_program@[i], law.topology_nodes@.len() as int))),
{
    let n = law.topology_nodes.len();
    let mut i: usize = 0;
    while i < law.topology_edges.len()
        invariant
            i <= law.topology_edges@.len(),
            forall|k: int| 0 <= k < i ==> effect_edge_ok(#[trigger] law.topology_edges@[k], n as int),
        decreases law.topology_edges@.len() - i,
    {
        let e = &law.topology_edges[i];
        if !((e.from as usize) < n && (e.to as usize) < n && e.relation_code != 0) {
            assert(!effect_edge_ok(law.topology_edges@[i as int], n as int));
            return false;
        }
        i = i + 1;
    }
    let mut i: usize = 0;
    while i < law.relation_program.len()
        invariant
            i <= law.relation_program@.len(),
            forall|k: int| 0 <= k < i ==> clause_ok(#[trigger] law.relation_program@[k], n as int),
        decreases law.relation_program@.len() - i,
    {
        let c = &law.relation_program[i];
        let rhs_ok = match c.rhs { Some(r) => (r as usize) < n, None => true };
        let constant_ok = match &c.constant_sha256 { Some(d) => valid_nonzero_sha256(d.as_str()), None => true };
        if !((c.lhs as usize) < n && rhs_ok && c.relation_code != 0 && constant_ok
            && !(c.constant_sha256.is_some() && c.constant_type_code.is_none())) {
            assert(!clause_ok(law.relation_program@[i as int], n as int));
            return false;
        }
        i = i + 1;
    }
    true
}

fn action_root(law: &CanonicalEffectLawV3) -> (s: String)
    ensures
        utf8(s@) == json_identity(action_root_json(*law)),
{
    let mut out: Vec<u8> = Vec::new();
    out.push(0x5b);
    write_array(&mut out, law.relation_program.as_slice());
    out.push(0x2c);
    write_str(&mut out, law.effect_invariant_root_sha256.as_str());
    out.push(0x2c);
    write_str(&mut out, law.preserved_frame_root_sha256.as_str());
    out.push(0x5d);
    assert(out@ =~= action_root_json(*law));
    sha256_hex(out.as_slice())
}

/// Checks a restart bundle: its bounded, ordered shape, its references,
/// and the action equivalence root over its relation program.
pub fn validate_canonical_effect_law_v3(law: &CanonicalEffectLawV3) -> (r: Result<(), EffectLawV3Error>)
    ensures
        r == spec_validate_law(*law),
{
    if !law_shape_exec(law) {
        return Err(EffectLawV3Error::InvalidRestartBundle);
    }
    if !law_references_exec(law) {
        return Err(EffectLawV3Error::InvalidRestartBundle);
    }
    let expected = action_root(law);
    proof {
        lemma_utf8_injective(expected@, law.action_equivalence_root_sha256@);
    }
    if !str_eq(expected.as_str(), law.action_equivalence_root_sha256.as_str()) {
        return Err(EffectLawV3Error::InvalidRestartBundle);
    }
    Ok(())
}

} // verus!
