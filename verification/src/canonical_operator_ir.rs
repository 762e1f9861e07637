//! The origin-neutral operator IR: bounded roles, relations, transforms and
//! composition edges, with canonical bytes and SHA-256 identities.
use vstd::prelude::*;
use crate::text::{utf8, str_eq, bytes_eq};
use crate::json::{
    CanonicalJson, json_str, object, begin_object, write_member, end_object,
    json_array, json_items, json_identity,
};
use crate::digest::{is_nonzero_sha256_text, valid_nonzero_sha256, sha256_hex};
use crate::scan::{
    strictly_increasing_u8, increasing_u8, strict_total_order, insert_ordered, sort_ordered,
    lemma_sort_ordered_permutation, sorted_by, lemma_sort_ordered_sorted, lemma_sort_ordered_multiset,
};
use crate::program::{CollectionOutputRenderer, ResponseProgram};
use crate::program_rules::spec_validate;

verus! {

pub const CANONICAL_OPERATOR_IR_V1_SCHEMA: &'static str = "nando.canonical-operator-ir.v1";
pub const CANONICAL_OPERATOR_IR_V1_MAX_ROLES: usize = 32;
pub const CANONICAL_OPERATOR_IR_V1_MAX_RELATIONS: usize = 256;
pub const CANONICAL_OPERATOR_IR_V1_MAX_TRANSFORMS: usize = 16;
pub const CANONICAL_OPERATOR_IR_V1_MAX_COMPOSITION_EDGES: usize = 64;

#[derive(Clone, Debug, PartialEq, Eq, PartialOrd, Ord)]
pub struct CanonicalOperatorRoleV1 {
    pub type_class: u8,
    pub cardinality_class: u8,
    pub temporal_position: u8,
    pub constraint_mask: u32,
    pub neighboring_relation_planes: Vec<u8>,
}

#[derive(Clone, Copy, Debug, PartialEq, Eq, PartialOrd, Ord, Structural)]
pub struct CanonicalOperatorRelationV1 {
    pub plane: u8,
    pub source_role: u8,
    pub target_role: u8,
    pub state: i8,
    pub phase_re_bits: u64,
    pub phase_im_bits: u64,
}

#[derive(Clone, Copy, Debug, PartialEq, Eq, PartialOrd, Ord, Structural)]
pub struct CanonicalOperatorTransformV1 {
    pub opcode: u8,
    pub output: u8,
    pub source_a: u8,
    pub source_b: u8,
    pub parameter: u16,
    pub flags: u16,
}

#[derive(Clone, Copy, Debug, PartialEq, Eq, PartialOrd, Ord, Structural)]
pub struct CanonicalOperatorCompositionEdgeV1 {
    pub producer_step: u8,
    pub consumer_step: u8,
}

/// Origin-neutral compiler input. Learning provenance, generation counters,
/// proof receipts, and execution authority are deliberately outside this IR.
#[derive(Clone, Debug, PartialEq, Eq)]
pub struct CanonicalOperatorIrV1 {
    pub schema: String,
    pub roles: Vec<CanonicalOperatorRoleV1>,
    pub relations: Vec<CanonicalOperatorRelationV1>,
    pub transforms: Vec<CanonicalOperatorTransformV1>,
    pub composition_edges: Vec<CanonicalOperatorCompositionEdgeV1>,
    pub renderer: CollectionOutputRenderer,
    pub actor_template: ResponseProgram,
    pub verifier_contract_sha256: String,
}

#[derive(Clone, Copy, Debug, PartialEq, Eq, Structural)]
pub enum CanonicalOperatorIrErrorV1 {
    Decode,
    NonCanonicalEncoding,
    InvalidSchema,
    InvalidRoleCount,
    InvalidRolePlanes,
    InvalidRelationCount,
    InvalidRelation,
    InvalidPhase,
    InvalidTransformCount,
    InvalidTransform,
    InvalidComposition,
    InvalidActor,
    InvalidVerifierContract,
    CanonicalEncoding,
}

// ---------------------------------------------------------------- canonical JSON

impl CanonicalJson for CanonicalOperatorRoleV1 {
    open spec fn json(&self) -> Seq<u8> {
        object(seq![("cardinality_class"@, self.cardinality_class.json())]
            .push(("constraint_mask"@, self.constraint_mask.json()))
            .push(("neighboring_relation_planes"@, self.neighboring_relation_planes.json()))
            .push(("temporal_position"@, self.temporal_position.json()))
            .push(("type_class"@, self.type_class.json())))
    }

    fn write_json(&self, out: &mut Vec<u8>) {
        let st = begin_object(out);
        let st = write_member(out, st, "cardinality_class", &self.cardinality_class);
        let st = write_member(out, st, "constraint_mask", &self.constraint_mask);
        let st = write_member(out, st, "neighboring_relation_planes", &self.neighboring_relation_planes);
        let st = write_member(out, st, "temporal_position", &self.temporal_position);
        let st = write_member(out, st, "type_class", &self.type_class);
        end_object(out, st);
    }
}

impl CanonicalJson for CanonicalOperatorRelationV1 {
    open spec fn json(&self) -> Seq<u8> {
        object(seq![("phase_im_bits"@, self.phase_im_bits.json())]
            .push(("phase_re_bits"@, self.phase_re_bits.json()))
            .push(("plane"@, self.plane.json()))
            .push(("source_role"@, self.source_role.json()))
            .push(("state"@, self.state.json()))
            .push(("target_role"@, self.target_role.json())))
    }

    fn write_json(&self, out: &mut Vec<u8>) {
        let st = begin_object(out);
        let st = write_member(out, st, "phase_im_bits", &self.phase_im_bits);
        let st = write_member(out, st, "phase_re_bits", &self.phase_re_bits);
        let st = write_member(out, st, "plane", &self.plane);
        let st = write_member(out, st, "source_role", &self.source_role);
        let st = write_member(out, st, "state", &self.state);
        let st = write_member(out, st, "target_role", &self.target_role);
        end_object(out, st);
    }
}

/// A relation as the executable identity sees it: without routing phase.
#[derive(Clone, Copy, Debug, PartialEq, Eq, Structural)]
pub struct ExecutableRelationV1 {
    pub plane: u8,
    pub source_role: u8,
    pub target_role: u8,
    pub state: i8,
}

impl CanonicalJson for ExecutableRelationV1 {
    open spec fn json(&self) -> Seq<u8> {
        object(seq![("plane"@, self.plane.json())]
            .push(("source_role"@, self.source_role.json()))
            .push(("state"@, self.state.json()))
            .push(("target_role"@, self.target_role.json())))
    }

    fn write_json(&self, out: &mut Vec<u8>) {
        let st = begin_object(out);
        let st = write_member(out, st, "plane", &self.plane);
        let st = write_member(out, st, "source_role", &self.source_role);
        let st = write_member(out, st, "state", &self.state);
        let st = write_member(out, st, "target_role", &self.target_role);
        end_object(out, st);
    }
}

impl CanonicalJson for CanonicalOperatorTransformV1 {
    open spec fn json(&self) -> Seq<u8> {
        object(seq![("flags"@, self.flags.json())]
            .push(("opcode"@, self.opcode.json()))
            .push(("output"@, self.output.json()))
            .push(("parameter"@, self.parameter.json()))
            .push(("source_a"@, self.source_a.json()))
            .push(("source_b"@, self.source_b.json())))
    }

    fn write_json(&self, out: &mut Vec<u8>) {
        let st = begin_object(out);
        let st = write_member(out, st, "flags", &self.flags);
        let st = write_member(out, st, "opcode", &self.opcode);
        let st = write_member(out, st, "output", &self.output);
        let st = write_member(out, st, "parameter", &self.parameter);
        let st = write_member(out, st, "source_a", &self.source_a);
        let st = write_member(out, st, "source_b", &self.source_b);
        end_object(out, st);
    }
}

impl CanonicalJson for CanonicalOperatorCompositionEdgeV1 {
    open spec fn json(&self) -> Seq<u8> {
        object(seq![("consumer_step"@, self.consumer_step.json())]
            .push(("producer_step"@, self.producer_step.json())))
    }

    fn write_json(&self, out: &mut Vec<u8>) {
        let st = begin_object(out);
        let st = write_member(out, st, "consumer_step", &self.consumer_step);
        let st = write_member(out, st, "producer_step", &self.producer_step);
        end_object(out, st);
    }
}

/// The phase-free view of a relation.
pub open spec fn executable_relation(r: CanonicalOperatorRelationV1) -> ExecutableRelationV1 {
    ExecutableRelationV1 { plane: r.plane, source_role: r.source_role, target_role: r.target_role, state: r.state }
}

/// The canonical JSON of the complete IR, routing phase included.
pub open spec fn ir_json(ir: CanonicalOperatorIrV1) -> Seq<u8> {
    object(seq![("actor_template"@, ir.actor_template.json())]
        .push(("composition_edges"@, ir.composition_edges.json()))
        .push(("relations"@, ir.relations.json()))
        .push(("renderer"@, ir.renderer.json()))
        .push(("roles"@, ir.roles.json()))
        .push(("schema"@, json_str(ir.schema@)))
        .push(("transforms"@, ir.transforms.json()))
        .push(("verifier_contract_sha256"@, json_str(ir.verifier_contract_sha256@))))
}

/// The canonical JSON of the executable semantics: the IR with every
/// relation's routing phase left out.
pub open spec fn executable_json(ir: CanonicalOperatorIrV1) -> Seq<u8> {
    object(seq![("actor_template"@, ir.actor_template.json())]
        .push(("composition_edges"@, ir.composition_edges.json()))
        .push(("relations"@, json_array(ir.relations@.map_values(|r: CanonicalOperatorRelationV1| executable_relation(r)))))
        .push(("renderer"@, ir.renderer.json()))
        .push(("roles"@, ir.roles.json()))
        .push(("schema"@, json_str(ir.schema@)))
        .push(("transforms"@, ir.transforms.json()))
        .push(("verifier_contract_sha256"@, json_str(ir.verifier_contract_sha256@))))
}

// ---------------------------------------------------------------- validation

/// `f64::from_bits(bits).is_finite()`: the exponent field is not all ones
/// (all ones encodes the infinities and NaN).
pub open spec fn finite_bits(bits: u64) -> bool {
    (bits >> 52u64) & 0x7ffu64 != 0x7ffu64
}

/// Both routing phase components of a relation are finite.
pub open spec fn phase_finite(r: CanonicalOperatorRelationV1) -> bool {
    finite_bits(r.phase_re_bits) && finite_bits(r.phase_im_bits)
}

/// The order of relations: by plane, source, target, state, then phase bits.
pub open spec fn relation_lt(a: CanonicalOperatorRelationV1, b: CanonicalOperatorRelationV1) -> bool {
    if a.plane != b.plane {
        a.plane < b.plane
    } else if a.source_role != b.source_role {
        a.source_role < b.source_role
    } else if a.target_role != b.target_role {
        a.target_role < b.target_role
    } else if a.state != b.state {
        a.state < b.state
    } else if a.phase_re_bits != b.phase_re_bits {
        a.phase_re_bits < b.phase_re_bits
    } else {
        a.phase_im_bits < b.phase_im_bits
    }
}

/// The order of composition edges: by producer, then consumer.
pub open spec fn edge_lt(a: CanonicalOperatorCompositionEdgeV1, b: CanonicalOperatorCompositionEdgeV1) -> bool {
    if a.producer_step != b.producer_step {
        a.producer_step < b.producer_step
    } else {
        a.consumer_step < b.consumer_step
    }
}

pub open spec fn relations_adjacent_lt(s: Seq<CanonicalOperatorRelationV1>, i: int) -> bool {
    relation_lt(s[i], s[i + 1])
}

pub open spec fn edges_adjacent_lt(s: Seq<CanonicalOperatorCompositionEdgeV1>, i: int) -> bool {
    edge_lt(s[i], s[i + 1])
}

/// A relation joins two distinct known roles with state -1 or 1.
pub open spec fn relation_ok(r: CanonicalOperatorRelationV1, roles: int) -> bool {
    r.source_role != r.target_role && (r.source_role as int) < roles && (r.target_role as int) < roles
        && (r.state == -1 || r.state == 1)
}

/// A transform writes a known role distinct from its known sources;
/// `source_b == 255` means no second source.
pub open spec fn transform_ok(t: CanonicalOperatorTransformV1, roles: int) -> bool {
    (t.output as int) < roles && (t.source_a as int) < roles
        && (t.source_b == 255 || (t.source_b as int) < roles)
        && t.output != t.source_a && t.output != t.source_b
}

/// An edge joins two distinct known transforms.
pub open spec fn edge_ok(e: CanonicalOperatorCompositionEdgeV1, transforms: int) -> bool {
    e.producer_step != e.consumer_step && (e.producer_step as int) < transforms
        && (e.consumer_step as int) < transforms
}

/// What validating an IR gives: the first failing check in order.
pub open spec fn spec_validate_ir(ir: CanonicalOperatorIrV1) -> Result<(), CanonicalOperatorIrErrorV1> {
    let roles = ir.roles@.len() as int;
    if ir.schema@ != CANONICAL_OPERATOR_IR_V1_SCHEMA@ {
        Err(CanonicalOperatorIrErrorV1::InvalidSchema)
    } else if roles == 0 || roles > 32 {
        Err(CanonicalOperatorIrErrorV1::InvalidRoleCount)
    } else if exists|i: int| 0 <= i < roles
        && !strictly_increasing_u8(#[trigger] ir.roles@[i].neighboring_relation_planes@) {
        Err(CanonicalOperatorIrErrorV1::InvalidRolePlanes)
    } else if ir.relations@.len() == 0 || ir.relations@.len() > 256 {
        Err(CanonicalOperatorIrErrorV1::InvalidRelationCount)
    } else if (exists|i: int| 0 <= i && i + 1 < ir.relations@.len() && !#[trigger] relations_adjacent_lt(ir.relations@, i))
        || (exists|i: int| 0 <= i < ir.relations@.len() && !relation_ok(#[trigger] ir.relations@[i], roles)) {
        Err(CanonicalOperatorIrErrorV1::InvalidRelation)
    } else if exists|i: int| 0 <= i < ir.relations@.len() && !#[trigger] phase_finite(ir.relations@[i]) {
        Err(CanonicalOperatorIrErrorV1::InvalidPhase)
    } else if ir.transforms@.len() == 0 || ir.transforms@.len() > 16 {
        Err(CanonicalOperatorIrErrorV1::InvalidTransformCount)
    } else if exists|i: int| 0 <= i < ir.transforms@.len() && !transform_ok(#[trigger] ir.transforms@[i], roles) {
        Err(CanonicalOperatorIrErrorV1::InvalidTransform)
    } else if ir.composition_edges@.len() > 64
        || (exists|i: int| 0 <= i && i + 1 < ir.composition_edges@.len()
            && !#[trigger] edges_adjacent_lt(ir.composition_edges@, i))
        || (exists|i: int| 0 <= i < ir.composition_edges@.len()
            && !edge_ok(#[trigger] ir.composition_edges@[i], ir.transforms@.len() as int)) {
        Err(CanonicalOperatorIrErrorV1::InvalidComposition)
    } else if spec_validate(ir.actor_template) is Err {
        Err(CanonicalOperatorIrErrorV1::InvalidActor)
    } else if !is_nonzero_sha256_text(utf8(ir.verifier_contract_sha256@)) {
        Err(CanonicalOperatorIrErrorV1::InvalidVerifierContract)
    } else {
        Ok(())
    }
}

fn relation_less(a: &CanonicalOperatorRelationV1, b: &CanonicalOperatorRelationV1) -> (r: bool)
    ensures
        r == relation_lt(*a, *b),
{
    if a.plane != b.plane {
        a.plane < b.plane
    } else if a.source_role != b.source_role {
        a.source_role < b.source_role
    } else if a.target_role != b.target_role {
        a.target_role < b.target_role
    } else if a.state != b.state {
        a.state < b.state
    } else if a.phase_re_bits != b.phase_re_bits {
        a.phase_re_bits < b.phase_re_bits
    } else {
        a.phase_im_bits < b.phase_im_bits
    }
}

fn edge_less(a: &CanonicalOperatorCompositionEdgeV1, b: &CanonicalOperatorCompositionEdgeV1) -> (r: bool)
    ensures
        r == edge_lt(*a, *b),
{
    if a.producer_step != b.producer_step {
        a.producer_step < b.producer_step
    } else {
        a.consumer_step < b.consumer_step
    }
}

fn finite(bits: u64) -> (r: bool)
    ensures
        r == finite_bits(bits),
{
    (bits >> 52u64) & 0x7ffu64 != 0x7ffu64
}

fn roles_planes_ok(roles: &[CanonicalOperatorRoleV1]) -> (r: bool)
    ensures
        r == forall|i: int| 0 <= i < roles@.len() ==> strictly_increasing_u8(#[trigger] roles@[i].neighboring_relation_planes@),
{
    let mut i: usize = 0;
    while i < roles.len()
        invariant
            i <= roles@.len(),
            forall|k: int| 0 <= k < i ==> strictly_increasing_u8(#[trigger] roles@[k].neighboring_relation_planes@),
        decreases roles@.len() - i,
    {
        if !increasing_u8(roles[i].neighboring_relation_planes.as_slice()) {
            return false;
        }
        i = i + 1;
    }
    true
}

fn relations_ok(rs: &[CanonicalOperatorRelationV1], roles: usize) -> (r: bool)
    ensures
        r == !((exists|i: int| 0 <= i && i + 1 < rs@.len() && !#[trigger] relations_adjacent_lt(rs@, i))
            || (exists|i: int| 0 <= i < rs@.len() && !relation_ok(#[trigger] rs@[i], roles as int))),
{
    let mut i: usize = 0;
    while i < rs.len()
        invariant
            i <= rs@.len(),
            forall|k: int| 0 <= k < i && k + 1 < rs@.len() ==> #[trigger] relations_adjacent_lt(rs@, k),
            forall|k: int| 0 <= k < i ==> relation_ok(#[trigger] rs@[k], roles as int),
        decreases rs@.len() - i,
    {
        let r = rs[i];
        if i + 1 < rs.len() && !relation_less(&r, &rs[i + 1]) {
            assert(!relations_adjacent_lt(rs@, i as int));
            return false;
        }
        if !(r.source_role != r.target_role && (r.source_role as usize) < roles
            && (r.target_role as usize) < roles && (r.state == -1 || r.state == 1)) {
            assert(!relation_ok(rs@[i as int], roles as int));
            return false;
        }
        i = i + 1;
    }
    true
}

fn phases_ok(rs: &[CanonicalOperatorRelationV1]) -> (r: bool)
    ensures
        r == forall|i: int| 0 <= i < rs@.len() ==> #[trigger] phase_finite(rs@[i]),
{
    let mut i: usize = 0;
    while i < rs.len()
        invariant
            i <= rs@.len(),
            forall|k: int| 0 <= k < i ==> #[trigger] phase_finite(rs@[k]),
        decreases rs@.len() - i,
    {
        let r = rs[i];
        if !(finite(r.phase_re_bits) && finite(r.phase_im_bits)) {
            assert(!phase_finite(rs@[i as int]));
            return false;
        }
        assert(phase_finite(rs@[i as int]));
        i = i + 1;
    }
    true
}

fn transforms_ok(ts: &[CanonicalOperatorTransformV1], roles: usize) -> (r: bool)
    ensures
        r == forall|i: int| 0 <= i < ts@.len() ==> transform_ok(#[trigger] ts@[i], roles as int),
{
    let mut i: usize = 0;
    while i < ts.len()
        invariant
            i <= ts@.len(),
            forall|k: int| 0 <= k < i ==> transform_ok(#[trigger] ts@[k], roles as int),
        decreases ts@.len() - i,
    {
        let t = ts[i];
        if !((t.output as usize) < roles && (t.source_a as usize) < roles
            && (t.source_b == 255 || (t.source_b as usize) < roles)
            && t.output != t.source_a && t.output != t.source_b) {
            assert(!transform_ok(ts@[i as int], roles as int));
            return false;
        }
        i = i + 1;
    }
    true
}

fn edges_ok(es: &[CanonicalOperatorCompositionEdgeV1], transforms: usize) -> (r: bool)
    ensures
        r == !((exists|i: int| 0 <= i && i + 1 < es@.len() && !#[trigger] edges_adjacent_lt(es@, i))
            || (exists|i: int| 0 <= i < es@.len() && !edge_ok(#[trigger] es@[i], transforms as int))),
{
    let mut i: usize = 0;
    while i < es.len()
        invariant
            i <= es@.len(),
            forall|k: int| 0 <= k < i && k + 1 < es@.len() ==> #[trigger] edges_adjacent_lt(es@, k),
            forall|k: int| 0 <= k < i ==> edge_ok(#[trigger] es@[k], transforms as int),
        decreases es@.len() - i,
    {
        let e = es[i];
        if i + 1 < es.len() && !edge_less(&e, &es[i + 1]) {
            assert(!edges_adjacent_lt(es@, i as int));
            return false;
        }
        if !(e.producer_step != e.consumer_step && (e.producer_step as usize) < transforms
            && (e.consumer_step as usize) < transforms) {
            assert(!edge_ok(es@[i as int], transforms as int));
            return false;
        }
        i = i + 1;
    }
    true
}

fn executable_relations(rs: &[CanonicalOperatorRelationV1]) -> (view: Vec<ExecutableRelationV1>)
    ensures
        view@ == rs@.map_values(|r: CanonicalOperatorRelationV1| executable_relation(r)),
{
    let mut view: Vec<ExecutableRelationV1> = Vec::new();
    let mut i: usize = 0;
    while i < rs.len()
        invariant
            i <= rs@.len(),
            view@ == rs@.take(i as int).map_values(|r: CanonicalOperatorRelationV1| executable_relation(r)),
        decreases rs@.len() - i,
    {
        let r = rs[i];
        view.push(ExecutableRelationV1 { plane: r.plane, source_role: r.source_role, target_role: r.target_role, state: r.state });
        assert(view@ =~= rs@.take(i + 1).map_values(|r: CanonicalOperatorRelationV1| executable_relation(r)));
        i = i + 1;
    }
    assert(rs@.take(rs@.len() as int) =~= rs@);
    view
}

impl CanonicalOperatorIrV1 {
    /// Checks every bound of the IR, in order, and reports the first failure.
    pub fn validate(&self) -> (r: Result<(), CanonicalOperatorIrErrorV1>)
        ensures
            r == spec_validate_ir(*self),
    {
        if !str_eq(self.schema.as_str(), CANONICAL_OPERATOR_IR_V1_SCHEMA) {
            return Err(CanonicalOperatorIrErrorV1::InvalidSchema);
        }
        let roles = self.roles.len();
        if roles == 0 || roles > CANONICAL_OPERATOR_IR_V1_MAX_ROLES {
            return Err(CanonicalOperatorIrErrorV1::InvalidRoleCount);
        }
        if !roles_planes_ok(self.roles.as_slice()) {
            return Err(CanonicalOperatorIrErrorV1::InvalidRolePlanes);
        }
        if self.relations.len() == 0 || self.relations.len() > CANONICAL_OPERATOR_IR_V1_MAX_RELATIONS {
            return Err(CanonicalOperatorIrErrorV1::InvalidRelationCount);
        }
        if !relations_ok(self.relations.as_slice(), roles) {
            return Err(CanonicalOperatorIrErrorV1::InvalidRelation);
        }
        if !phases_ok(self.relations.as_slice()) {
            return Err(CanonicalOperatorIrErrorV1::InvalidPhase);
        }
        if self.transforms.len() == 0 || self.transforms.len() > CANONICAL_OPERATOR_IR_V1_MAX_TRANSFORMS {
            return Err(CanonicalOperatorIrErrorV1::InvalidTransformCount);
        }
        if !transforms_ok(self.transforms.as_slice(), roles) {
            return Err(CanonicalOperatorIrErrorV1::InvalidTransform);
        }
        if self.composition_edges.len() > CANONICAL_OPERATOR_IR_V1_MAX_COMPOSITION_EDGES
            || !edges_ok(self.composition_edges.as_slice(), self.transforms.len()) {
            return Err(CanonicalOperatorIrErrorV1::InvalidComposition);
        }
        if self.actor_template.validate().is_err() {
            return Err(CanonicalOperatorIrErrorV1::InvalidActor);
        }
        if !valid_nonzero_sha256(self.verifier_contract_sha256.as_str()) {
            return Err(CanonicalOperatorIrErrorV1::InvalidVerifierContract);
        }
        Ok(())
    }

    pub fn roles(&self) -> (r: &[CanonicalOperatorRoleV1])
        ensures
            r@ == self.roles@,
    {
        self.roles.as_slice()
    }

    pub fn relations(&self) -> (r: &[CanonicalOperatorRelationV1])
        ensures
            r@ == self.relations@,
    {
        self.relations.as_slice()
    }

    pub fn transforms(&self) -> (r: &[CanonicalOperatorTransformV1])
        ensures
            r@ == self.transforms@,
    {
        self.transforms.as_slice()
    }

    pub fn composition_edges(&self) -> (r: &[CanonicalOperatorCompositionEdgeV1])
        ensures
            r@ == self.composition_edges@,
    {
        self.composition_edges.as_slice()
    }

    pub fn renderer(&self) -> (r: &CollectionOutputRenderer)
        ensures
            *r == self.renderer,
    {
        &self.renderer
    }

    pub fn actor_template(&self) -> (r: &ResponseProgram)
        ensures
            *r == self.actor_template,
    {
        &self.actor_template
    }

    pub fn verifier_contract_sha256(&self) -> (r: &str)
        ensures
            r@ == self.verifier_contract_sha256@,
    {
        self.verifier_contract_sha256.as_str()
    }

    fn write_ir(&self, out: &mut Vec<u8>)
        ensures
            final(out)@ == old(out)@ + ir_json(*self),
    {
        let st = begin_object(out);
        let st = write_member(out, st, "actor_template", &self.actor_template);
        let st = write_member(out, st, "composition_edges", &self.composition_edges);
        let st = write_member(out, st, "relations", &self.relations);
        let st = write_member(out, st, "renderer", &self.renderer);
        let st = write_member(out, st, "roles", &self.roles);
        let st = write_member(out, st, "schema", &self.schema);
        let st = write_member(out, st, "transforms", &self.transforms);
        let st = write_member(out, st, "verifier_contract_sha256", &self.verifier_contract_sha256);
        end_object(out, st);
    }

    fn write_executable(&self, out: &mut Vec<u8>)
        ensures
            final(out)@ == old(out)@ + executable_json(*self),
    {
        let view = executable_relations(self.relations.as_slice());
        let st = begin_object(out);
        let st = write_member(out, st, "actor_template", &self.actor_template);
        let st = write_member(out, st, "composition_edges", &self.composition_edges);
        let st = write_member(out, st, "relations", &view);
        let st = write_member(out, st, "renderer", &self.renderer);
        let st = write_member(out, st, "roles", &self.roles);
        let st = write_member(out, st, "schema", &self.schema);
        let st = write_member(out, st, "transforms", &self.transforms);
        let st = write_member(out, st, "verifier_contract_sha256", &self.verifier_contract_sha256);
        end_object(out, st);
    }

    /// The canonical JSON bytes of a valid IR.
    pub fn canonical_bytes(&self) -> (r: Result<Vec<u8>, CanonicalOperatorIrErrorV1>)
        ensures
            match spec_validate_ir(*self) {
                Ok(_) => (r matches Ok(b) && b@ == ir_json(*self)),
                Err(e) => r == Err::<Vec<u8>, CanonicalOperatorIrErrorV1>(e),
            },
    {
        match self.validate() {
            Err(e) => Err(e),
            Ok(_) => {
                let mut out: Vec<u8> = Vec::new();
                self.write_ir(&mut out);
                assert(out@ =~= ir_json(*self));
                Ok(out)
            },
        }
    }

    /// Identifies the complete precompiler artifact, including routing phase.
    pub fn artifact_sha256(&self) -> (r: Result<String, CanonicalOperatorIrErrorV1>)
        ensures
            match spec_validate_ir(*self) {
                Ok(_) => (r matches Ok(s) && utf8(s@) == json_identity(ir_json(*self))),
                Err(e) => r == Err::<String, CanonicalOperatorIrErrorV1>(e),
            },
    {
        match self.validate() {
            Err(e) => Err(e),
            Ok(_) => {
                let mut out: Vec<u8> = Vec::new();
                self.write_ir(&mut out);
                assert(out@ =~= ir_json(*self));
                Ok(sha256_hex(out.as_slice()))
            },
        }
    }

    /// Identifies executable semantics independently of learned routing phase.
    ///
    /// Phase remains in the full IR. It is excluded here so independently
    /// induced routes can converge on one program without pretending their
    /// routing evidence was byte-identical.
    pub fn executable_sha256(&self) -> (r: Result<String, CanonicalOperatorIrErrorV1>)
        ensures
            match spec_validate_ir(*self) {
                Ok(_) => (r matches Ok(s) && utf8(s@) == json_identity(executable_json(*self))),
                Err(e) => r == Err::<String, CanonicalOperatorIrErrorV1>(e),
            },
    {
        match self.validate() {
            Err(e) => Err(e),
            Ok(_) => {
                let mut out: Vec<u8> = Vec::new();
                self.write_executable(&mut out);
                assert(out@ =~= executable_json(*self));
                Ok(sha256_hex(out.as_slice()))
            },
        }
    }

    /// The canonical JSON bytes of the executable semantics.
    pub fn executable_bytes(&self) -> (r: Result<Vec<u8>, CanonicalOperatorIrErrorV1>)
        ensures
            match spec_validate_ir(*self) {
                Ok(_) => (r matches Ok(b) && b@ == executable_json(*self)),
                Err(e) => r == Err::<Vec<u8>, CanonicalOperatorIrErrorV1>(e),
            },
    {
        match self.validate() {
            Err(e) => Err(e),
            Ok(_) => {
                let mut out: Vec<u8> = Vec::new();
                self.write_executable(&mut out);
                assert(out@ =~= executable_json(*self));
                Ok(out)
            },
        }
    }
}

/// `x` inserted before the first element that is not below it.
pub open spec fn insert_relation(s: Seq<CanonicalOperatorRelationV1>, x: CanonicalOperatorRelationV1) -> Seq<CanonicalOperatorRelationV1>
    decreases s.len(),
{
    if s.len() == 0 {
        seq![x]
    } else if relation_lt(s[0], x) {
        seq![s[0]] + insert_relation(s.subrange(1, s.len() as int), x)
    } else {
        seq![x] + s
    }
}

/// The elements in ascending order (insertion sort).
pub open spec fn sort_relations(s: Seq<CanonicalOperatorRelationV1>) -> Seq<CanonicalOperatorRelationV1>
    decreases s.len(),
{
    if s.len() == 0 {
        s
    } else {
        insert_relation(sort_relations(s.drop_last()), s.last())
    }
}

proof fn lemma_insert_relation_at(s: Seq<CanonicalOperatorRelationV1>, x: CanonicalOperatorRelationV1, p: int)
    requires
        0 <= p <= s.len(),
        forall|k: int| 0 <= k < p ==> relation_lt(#[trigger] s[k], x),
        p == s.len() || !relation_lt(s[p], x),
    ensures
        insert_relation(s, x) == s.insert(p, x),
    decreases s.len(),
{
    if s.len() == 0 {
        assert(s.insert(p, x) =~= seq![x]);
    } else if p == 0 {
        assert(s.insert(0, x) =~= seq![x] + s);
    } else {
        let t = s.subrange(1, s.len() as int);
        assert forall|k: int| 0 <= k < p - 1 implies relation_lt(#[trigger] t[k], x) by {
            assert(t[k] == s[k + 1]);
        }
        if p - 1 < t.len() {
            assert(t[p - 1] == s[p]);
        }
        lemma_insert_relation_at(t, x, p - 1);
        assert(s.insert(p, x) =~= seq![s[0]] + t.insert(p - 1, x));
    }
}

fn sorted_relations(v: &[CanonicalOperatorRelationV1]) -> (r: Vec<CanonicalOperatorRelationV1>)
    ensures
        r@ == sort_relations(v@),
{
    let mut out: Vec<CanonicalOperatorRelationV1> = Vec::new();
    let mut i: usize = 0;
    while i < v.len()
        invariant
            i <= v@.len(),
            out@ == sort_relations(v@.take(i as int)),
            out@.len() == i,
        decreases v@.len() - i,
    {
        let x = v[i];
        let mut p: usize = 0;
        while p < out.len() && relation_less(&out[p], &x)
            invariant
                p <= out@.len(),
                forall|k: int| 0 <= k < p ==> relation_lt(#[trigger] out@[k], x),
            decreases out@.len() - p,
        {
            p = p + 1;
        }
        proof {
            lemma_insert_relation_at(out@, x, p as int);
            assert(v@.take(i + 1).drop_last() =~= v@.take(i as int));
        }
        out.insert(p, x);
        i = i + 1;
    }
    assert(v@.take(v@.len() as int) =~= v@);
    out
}

/// `x` inserted before the first element that is not below it.
pub open spec fn insert_edge(s: Seq<CanonicalOperatorCompositionEdgeV1>, x: CanonicalOperatorCompositionEdgeV1) -> Seq<CanonicalOperatorCompositionEdgeV1>
    decreases s.len(),
{
    if s.len() == 0 {
        seq![x]
    } else if edge_lt(s[0], x) {
        seq![s[0]] + insert_edge(s.subrange(1, s.len() as int), x)
    } else {
        seq![x] + s
    }
}

/// The elements in ascending order (insertion sort).
pub open spec fn sort_edges(s: Seq<CanonicalOperatorCompositionEdgeV1>) -> Seq<CanonicalOperatorCompositionEdgeV1>
    decreases s.len(),
{
    if s.len() == 0 {
        s
    } else {
        insert_edge(sort_edges(s.drop_last()), s.last())
    }
}

proof fn lemma_insert_edge_at(s: Seq<CanonicalOperatorCompositionEdgeV1>, x: CanonicalOperatorCompositionEdgeV1, p: int)
    requires
        0 <= p <= s.len(),
        forall|k: int| 0 <= k < p ==> edge_lt(#[trigger] s[k], x),
        p == s.len() || !edge_lt(s[p], x),
    ensures
        insert_edge(s, x) == s.insert(p, x),
    decreases s.len(),
{
    if s.len() == 0 {
        assert(s.insert(p, x) =~= seq![x]);
    } else if p == 0 {
        assert(s.insert(0, x) =~= seq![x] + s);
    } else {
        let t = s.subrange(1, s.len() as int);
        assert forall|k: int| 0 <= k < p - 1 implies edge_lt(#[trigger] t[k], x) by {
            assert(t[k] == s[k + 1]);
        }
        if p - 1 < t.len() {
            assert(t[p - 1] == s[p]);
        }
        lemma_insert_edge_at(t, x, p - 1);
        assert(s.insert(p, x) =~= seq![s[0]] + t.insert(p - 1, x));
    }
}

fn sorted_edges(v: &[CanonicalOperatorCompositionEdgeV1]) -> (r: Vec<CanonicalOperatorCompositionEdgeV1>)
    ensures
        r@ == sort_edges(v@),
{
    let mut out: Vec<CanonicalOperatorCompositionEdgeV1> = Vec::new();
    let mut i: usize = 0;
    while i < v.len()
        invariant
            i <= v@.len(),
            out@ == sort_edges(v@.take(i as int)),
            out@.len() == i,
        decreases v@.len() - i,
    {
        let x = v[i];
        let mut p: usize = 0;
        while p < out.len() && edge_less(&out[p], &x)
            invariant
                p <= out@.len(),
                forall|k: int| 0 <= k < p ==> edge_lt(#[trigger] out@[k], x),
            decreases out@.len() - p,
        {
            p = p + 1;
        }
        proof {
            lemma_insert_edge_at(out@, x, p as int);
            assert(v@.take(i + 1).drop_last() =~= v@.take(i as int));
        }
        out.insert(p, x);
        i = i + 1;
    }
    assert(v@.take(v@.len() as int) =~= v@);
    out
}

/// The planes present in `s` that are below `b`, ascending and without repeats.
pub open spec fn planes_below(s: Seq<u8>, b: int) -> Seq<u8>
    decreases b,
{
    if b <= 0 {
        Seq::empty()
    } else if s.contains((b - 1) as u8) {
        planes_below(s, b - 1).push((b - 1) as u8)
    } else {
        planes_below(s, b - 1)
    }
}

/// The planes of `s`, ascending and without repeats.
pub open spec fn canonical_planes(s: Seq<u8>) -> Seq<u8> {
    planes_below(s, 256)
}

fn contains_u8(s: &[u8], x: u8) -> (r: bool)
    ensures
        r == s@.contains(x),
{
    let mut i: usize = 0;
    while i < s.len()
        invariant
            i <= s@.len(),
            forall|k: int| 0 <= k < i ==> s@[k] != x,
        decreases s@.len() - i,
    {
        if s[i] == x {
            assert(s@[i as int] == x);
            return true;
        }
        i = i + 1;
    }
    false
}

fn sorted_planes(s: &[u8]) -> (r: Vec<u8>)
    ensures
        r@ == canonical_planes(s@),
{
    let mut out: Vec<u8> = Vec::new();
    let mut b: u16 = 0;
    while b < 256
        invariant
            b <= 256,
            out@ == planes_below(s@, b as int),
        decreases 256 - b,
    {
        let x = b as u8;
        if contains_u8(s, x) {
            out.push(x);
        }
        b = b + 1;
    }
    out
}

/// A role with its planes in canonical order.
pub open spec fn canonical_role(r: CanonicalOperatorRoleV1, c: CanonicalOperatorRoleV1) -> bool {
    &&& c.type_class == r.type_class
    &&& c.cardinality_class == r.cardinality_class
    &&& c.temporal_position == r.temporal_position
    &&& c.constraint_mask == r.constraint_mask
    &&& c.neighboring_relation_planes@ == canonical_planes(r.neighboring_relation_planes@)
}

pub open spec fn canonical_roles(rs: Seq<CanonicalOperatorRoleV1>, cs: Seq<CanonicalOperatorRoleV1>) -> bool {
    cs.len() == rs.len() && forall|i: int| 0 <= i < rs.len() ==> canonical_role(#[trigger] rs[i], cs[i])
}

fn canonicalize_roles(rs: Vec<CanonicalOperatorRoleV1>) -> (cs: Vec<CanonicalOperatorRoleV1>)
    ensures
        canonical_roles(rs@, cs@),
{
    let mut out: Vec<CanonicalOperatorRoleV1> = Vec::new();
    let mut i: usize = 0;
    while i < rs.len()
        invariant
            i <= rs@.len(),
            out@.len() == i,
            forall|k: int| 0 <= k < i ==> canonical_role(#[trigger] rs@[k], out@[k]),
        decreases rs@.len() - i,
    {
        let r = &rs[i];
        let planes = sorted_planes(r.neighboring_relation_planes.as_slice());
        out.push(CanonicalOperatorRoleV1 {
            type_class: r.type_class,
            cardinality_class: r.cardinality_class,
            temporal_position: r.temporal_position,
            constraint_mask: r.constraint_mask,
            neighboring_relation_planes: planes,
        });
        assert(canonical_role(rs@[i as int], out@[i as int]));
        i = i + 1;
    }
    out
}

// ---------------------------------------------------------------- laws of the orders

/// The order of relations, as a function.
pub open spec fn relation_order() -> spec_fn(CanonicalOperatorRelationV1, CanonicalOperatorRelationV1) -> bool {
    |a: CanonicalOperatorRelationV1, b: CanonicalOperatorRelationV1| relation_lt(a, b)
}

/// The order of composition edges, as a function.
pub open spec fn edge_order() -> spec_fn(CanonicalOperatorCompositionEdgeV1, CanonicalOperatorCompositionEdgeV1) -> bool {
    |a: CanonicalOperatorCompositionEdgeV1, b: CanonicalOperatorCompositionEdgeV1| edge_lt(a, b)
}

/// Relations are totally ordered: every field takes part in the order.
pub proof fn lemma_relation_order_total()
    ensures
        strict_total_order(relation_order()),
{
    let lt = relation_order();
    assert forall|a: CanonicalOperatorRelationV1, b: CanonicalOperatorRelationV1| a != b implies #[trigger] lt(a, b)
        || #[trigger] lt(b, a) by {
        assert(lt(a, b) == relation_lt(a, b) && lt(b, a) == relation_lt(b, a));
    }
    assert forall|a: CanonicalOperatorRelationV1, b: CanonicalOperatorRelationV1, c: CanonicalOperatorRelationV1|
        #[trigger] lt(a, b) && #[trigger] lt(b, c) implies lt(a, c) by {
        assert(lt(a, b) == relation_lt(a, b) && lt(b, c) == relation_lt(b, c) && lt(a, c) == relation_lt(a, c));
    }
}

/// Composition edges are totally ordered: both fields take part in the order.
pub proof fn lemma_edge_order_total()
    ensures
        strict_total_order(edge_order()),
{
    let lt = edge_order();
    assert forall|a: CanonicalOperatorCompositionEdgeV1, b: CanonicalOperatorCompositionEdgeV1| a != b implies #[trigger] lt(a, b)
        || #[trigger] lt(b, a) by {
        assert(lt(a, b) == edge_lt(a, b) && lt(b, a) == edge_lt(b, a));
    }
    assert forall|a: CanonicalOperatorCompositionEdgeV1, b: CanonicalOperatorCompositionEdgeV1, c: CanonicalOperatorCompositionEdgeV1|
        #[trigger] lt(a, b) && #[trigger] lt(b, c) implies lt(a, c) by {
        assert(lt(a, b) == edge_lt(a, b) && lt(b, c) == edge_lt(b, c) && lt(a, c) == edge_lt(a, c));
    }
}

proof fn lemma_insert_relation_ordered(s: Seq<CanonicalOperatorRelationV1>, x: CanonicalOperatorRelationV1)
    ensures
        insert_relation(s, x) == insert_ordered(s, x, relation_order()),
    decreases s.len(),
{
    if s.len() > 0 && relation_lt(s[0], x) {
        lemma_insert_relation_ordered(s.subrange(1, s.len() as int), x);
    }
}

proof fn lemma_sort_relations_ordered(s: Seq<CanonicalOperatorRelationV1>)
    ensures
        sort_relations(s) == sort_ordered(s, relation_order()),
    decreases s.len(),
{
    if s.len() > 0 {
        lemma_sort_relations_ordered(s.drop_last());
        lemma_insert_relation_ordered(sort_relations(s.drop_last()), s.last());
    }
}

proof fn lemma_insert_edge_ordered(s: Seq<CanonicalOperatorCompositionEdgeV1>, x: CanonicalOperatorCompositionEdgeV1)
    ensures
        insert_edge(s, x) == insert_ordered(s, x, edge_order()),
    decreases s.len(),
{
    if s.len() > 0 && edge_lt(s[0], x) {
        lemma_insert_edge_ordered(s.subrange(1, s.len() as int), x);
    }
}

proof fn lemma_sort_edges_ordered(s: Seq<CanonicalOperatorCompositionEdgeV1>)
    ensures
        sort_edges(s) == sort_ordered(s, edge_order()),
    decreases s.len(),
{
    if s.len() > 0 {
        lemma_sort_edges_ordered(s.drop_last());
        lemma_insert_edge_ordered(sort_edges(s.drop_last()), s.last());
    }
}

/// Sorted relations do not depend on the order in which the relations are
/// given: any rearrangement of the same relations sorts the same.
pub proof fn lemma_sort_relations_permutation(a: Seq<CanonicalOperatorRelationV1>, b: Seq<CanonicalOperatorRelationV1>)
    requires
        a.to_multiset() == b.to_multiset(),
    ensures
        sort_relations(a) == sort_relations(b),
{
    lemma_relation_order_total();
    lemma_sort_relations_ordered(a);
    lemma_sort_relations_ordered(b);
    lemma_sort_ordered_permutation(a, b, relation_order());
}

/// Sorted composition edges do not depend on the order in which the edges
/// are given.
pub proof fn lemma_sort_edges_permutation(a: Seq<CanonicalOperatorCompositionEdgeV1>, b: Seq<CanonicalOperatorCompositionEdgeV1>)
    requires
        a.to_multiset() == b.to_multiset(),
    ensures
        sort_edges(a) == sort_edges(b),
{
    lemma_edge_order_total();
    lemma_sort_edges_ordered(a);
    lemma_sort_edges_ordered(b);
    lemma_sort_ordered_permutation(a, b, edge_order());
}

/// Sorting relations and composition edges puts them in order and keeps
/// each as often as it occurs.
pub proof fn lemma_sorts_order_and_keep(r: Seq<CanonicalOperatorRelationV1>, e: Seq<CanonicalOperatorCompositionEdgeV1>)
    ensures
        sorted_by(sort_relations(r), relation_order()),
        sort_relations(r).to_multiset() == r.to_multiset(),
        sorted_by(sort_edges(e), edge_order()),
        sort_edges(e).to_multiset() == e.to_multiset(),
{
    lemma_relation_order_total();
    lemma_edge_order_total();
    lemma_sort_relations_ordered(r);
    lemma_sort_edges_ordered(e);
    lemma_sort_ordered_sorted(r, relation_order());
    lemma_sort_ordered_multiset(r, relation_order());
    lemma_sort_ordered_sorted(e, edge_order());
    lemma_sort_ordered_multiset(e, edge_order());
}

/// Accepts an IR decoded from the given bytes only when it validates and the
/// bytes are exactly its canonical JSON: an invalid IR gives the error its
/// validation gives, bytes of a valid IR that are not canonical give
/// `NonCanonicalEncoding`.
pub fn accept_decoded_operator_ir_v1(ir: CanonicalOperatorIrV1, bytes: &[u8]) -> (r: Result<CanonicalOperatorIrV1, CanonicalOperatorIrErrorV1>)
    ensures
        match spec_validate_ir(ir) {
            Err(e) => r == Err::<CanonicalOperatorIrV1, CanonicalOperatorIrErrorV1>(e),
            Ok(_) => if ir_json(ir) == bytes@ {
                r == Ok::<CanonicalOperatorIrV1, CanonicalOperatorIrErrorV1>(ir)
            } else {
                r == Err::<CanonicalOperatorIrV1, CanonicalOperatorIrErrorV1>(CanonicalOperatorIrErrorV1::NonCanonicalEncoding)
            },
        },
{
    match ir.canonical_bytes() {
        Err(e) => Err(e),
        Ok(canonical) => {
            if bytes_eq(canonical.as_slice(), bytes) {
                Ok(ir)
            } else {
                Err(CanonicalOperatorIrErrorV1::NonCanonicalEncoding)
            }
        },
    }
}

/// `c` is the canonical form of an IR built from the given parts.
pub open spec fn canonical_ir_of(
    c: CanonicalOperatorIrV1,
    roles: Seq<CanonicalOperatorRoleV1>,
    relations: Seq<CanonicalOperatorRelationV1>,
    transforms: Seq<CanonicalOperatorTransformV1>,
    composition_edges: Seq<CanonicalOperatorCompositionEdgeV1>,
    renderer: CollectionOutputRenderer,
    actor_template: ResponseProgram,
    verifier_contract_sha256: Seq<char>,
) -> bool {
    &&& c.schema@ == CANONICAL_OPERATOR_IR_V1_SCHEMA@
    &&& canonical_roles(roles, c.roles@)
    &&& c.relations@ == sort_relations(relations)
    &&& c.transforms@ == transforms
    &&& c.composition_edges@ == sort_edges(composition_edges)
    &&& c.renderer == renderer
    &&& c.actor_template == actor_template
    &&& c.verifier_contract_sha256@ == verifier_contract_sha256
}

/// What building an IR from the given parts gives: its canonical form when
/// that validates, else the error that validating the canonical form gives.
pub open spec fn new_outcome(
    r: Result<CanonicalOperatorIrV1, CanonicalOperatorIrErrorV1>,
    roles: Seq<CanonicalOperatorRoleV1>,
    relations: Seq<CanonicalOperatorRelationV1>,
    transforms: Seq<CanonicalOperatorTransformV1>,
    composition_edges: Seq<CanonicalOperatorCompositionEdgeV1>,
    renderer: CollectionOutputRenderer,
    actor_template: ResponseProgram,
    verifier_contract_sha256: Seq<char>,
) -> bool {
    match r {
        Ok(v) => canonical_ir_of(v, roles, relations, transforms, composition_edges, renderer, actor_template,
            verifier_contract_sha256) && spec_validate_ir(v) is Ok,
        Err(e) => exists|c: CanonicalOperatorIrV1| canonical_ir_of(c, roles, relations, transforms,
            composition_edges, renderer, actor_template, verifier_contract_sha256)
            && #[trigger] spec_validate_ir(c) == Err::<(), CanonicalOperatorIrErrorV1>(e),
    }
}

impl CanonicalOperatorIrV1 {
    /// Builds the IR in canonical order (role planes sorted and deduplicated,
    /// relations and composition edges sorted) and validates it.
    pub fn new(
        roles: Vec<CanonicalOperatorRoleV1>,
        relations: Vec<CanonicalOperatorRelationV1>,
        transforms: Vec<CanonicalOperatorTransformV1>,
        composition_edges: Vec<CanonicalOperatorCompositionEdgeV1>,
        renderer: CollectionOutputRenderer,
        actor_template: ResponseProgram,
        verifier_contract_sha256: String,
    ) -> (r: Result<Self, CanonicalOperatorIrErrorV1>)
        ensures
            new_outcome(r, roles@, relations@, transforms@, composition_edges@, renderer, actor_template,
                verifier_contract_sha256@),
    {
        let ghost roles_in = roles@;
        let sorted_relations = sorted_relations(relations.as_slice());
        let sorted_edges = sorted_edges(composition_edges.as_slice());
        let value = CanonicalOperatorIrV1 {
            schema: CANONICAL_OPERATOR_IR_V1_SCHEMA.to_owned(),
            roles: canonicalize_roles(roles),
            relations: sorted_relations,
            transforms,
            composition_edges: sorted_edges,
            renderer,
            actor_template,
            verifier_contract_sha256,
        };
        match value.validate() {
            Ok(_) => Ok(value),
            Err(e) => Err(e),
        }
    }
}

/// Two roles that differ at most in the order and repetition of their
/// neighbouring planes.
pub open spec fn same_role_but_plane_order(a: CanonicalOperatorRoleV1, b: CanonicalOperatorRoleV1) -> bool {
    &&& a.type_class == b.type_class
    &&& a.cardinality_class == b.cardinality_class
    &&& a.temporal_position == b.temporal_position
    &&& a.constraint_mask == b.constraint_mask
    &&& forall|x: u8| a.neighboring_relation_planes@.contains(x) == b.neighboring_relation_planes@.contains(x)
}

/// Two IRs with the same contents: equal fields, each list the same, and
/// roles with the same planes in the same order.
pub open spec fn same_ir(a: CanonicalOperatorIrV1, b: CanonicalOperatorIrV1) -> bool {
    &&& a.schema@ == b.schema@
    &&& a.roles@.len() == b.roles@.len()
    &&& forall|i: int| 0 <= i < a.roles@.len() ==> {
        &&& (#[trigger] a.roles@[i]).type_class == b.roles@[i].type_class
        &&& a.roles@[i].cardinality_class == b.roles@[i].cardinality_class
        &&& a.roles@[i].temporal_position == b.roles@[i].temporal_position
        &&& a.roles@[i].constraint_mask == b.roles@[i].constraint_mask
        &&& a.roles@[i].neighboring_relation_planes@ == b.roles@[i].neighboring_relation_planes@
    }
    &&& a.relations@ == b.relations@
    &&& a.transforms@ == b.transforms@
    &&& a.composition_edges@ == b.composition_edges@
    &&& a.renderer == b.renderer
    &&& a.actor_template == b.actor_template
    &&& a.verifier_contract_sha256@ == b.verifier_contract_sha256@
}

proof fn lemma_json_items_pointwise(s1: Seq<CanonicalOperatorRoleV1>, s2: Seq<CanonicalOperatorRoleV1>)
    requires
        s1.len() == s2.len(),
        forall|i: int| 0 <= i < s1.len() ==> (#[trigger] s1[i]).json() == s2[i].json(),
    ensures
        json_items(s1) == json_items(s2),
    decreases s1.len(),
{
    if s1.len() > 1 {
        lemma_json_items_pointwise(s1.drop_last(), s2.drop_last());
        assert(s1.last().json() == s2.last().json());
    } else if s1.len() == 1 {
        assert(s1[0].json() == s2[0].json());
    }
}

/// IRs with the same contents validate alike and have the same canonical
/// and executable JSON, and so the same canonical, executable and artifact
/// SHA-256.
pub proof fn lemma_same_ir_same_identity(a: CanonicalOperatorIrV1, b: CanonicalOperatorIrV1)
    requires
        same_ir(a, b),
    ensures
        spec_validate_ir(a) == spec_validate_ir(b),
        ir_json(a) == ir_json(b),
        executable_json(a) == executable_json(b),
{
    let n = a.roles@.len() as int;
    assert forall|i: int| 0 <= i < n implies (#[trigger] a.roles@[i]).json() == b.roles@[i].json() by {
        assert(a.roles@[i].neighboring_relation_planes.json() == b.roles@[i].neighboring_relation_planes.json());
    }
    lemma_json_items_pointwise(a.roles@, b.roles@);
    assert(a.roles.json() == b.roles.json());
    assert(a.relations.json() == b.relations.json());
    assert(a.transforms.json() == b.transforms.json());
    assert(a.composition_edges.json() == b.composition_edges.json());
    let f = |r: CanonicalOperatorRelationV1| executable_relation(r);
    assert(a.relations@.map_values(f) == b.relations@.map_values(f));
    assert((exists|i: int| 0 <= i < n && !strictly_increasing_u8(#[trigger] a.roles@[i].neighboring_relation_planes@))
        == (exists|i: int| 0 <= i < n && !strictly_increasing_u8(#[trigger] b.roles@[i].neighboring_relation_planes@)))
        by {
        if exists|i: int| 0 <= i < n && !strictly_increasing_u8(#[trigger] a.roles@[i].neighboring_relation_planes@) {
            let i = choose|i: int| 0 <= i < n && !strictly_increasing_u8(#[trigger] a.roles@[i].neighboring_relation_planes@);
            assert(b.roles@[i].neighboring_relation_planes@ == a.roles@[i].neighboring_relation_planes@);
        }
        if exists|i: int| 0 <= i < n && !strictly_increasing_u8(#[trigger] b.roles@[i].neighboring_relation_planes@) {
            let i = choose|i: int| 0 <= i < n && !strictly_increasing_u8(#[trigger] b.roles@[i].neighboring_relation_planes@);
            assert(b.roles@[i].neighboring_relation_planes@ == a.roles@[i].neighboring_relation_planes@);
        }
    }
}

/// Canonical forms of two sets of parts that differ only in the order of the
/// relations and composition edges, and in the order and repetition of each
/// role's planes, have the same contents.
pub proof fn lemma_canonical_forms_agree(
    c1: CanonicalOperatorIrV1,
    c2: CanonicalOperatorIrV1,
    roles1: Seq<CanonicalOperatorRoleV1>,
    roles2: Seq<CanonicalOperatorRoleV1>,
    relations1: Seq<CanonicalOperatorRelationV1>,
    relations2: Seq<CanonicalOperatorRelationV1>,
    transforms: Seq<CanonicalOperatorTransformV1>,
    edges1: Seq<CanonicalOperatorCompositionEdgeV1>,
    edges2: Seq<CanonicalOperatorCompositionEdgeV1>,
    renderer: CollectionOutputRenderer,
    actor_template: ResponseProgram,
    verifier_contract_sha256: Seq<char>,
)
    requires
        canonical_ir_of(c1, roles1, relations1, transforms, edges1, renderer, actor_template, verifier_contract_sha256),
        canonical_ir_of(c2, roles2, relations2, transforms, edges2, renderer, actor_template, verifier_contract_sha256),
        roles1.len() == roles2.len(),
        forall|i: int| 0 <= i < roles1.len() ==> same_role_but_plane_order(#[trigger] roles1[i], roles2[i]),
        relations1.to_multiset() == relations2.to_multiset(),
        edges1.to_multiset() == edges2.to_multiset(),
    ensures
        same_ir(c1, c2),
{
    lemma_sort_relations_permutation(relations1, relations2);
    lemma_sort_edges_permutation(edges1, edges2);
    assert forall|i: int| 0 <= i < c1.roles@.len() implies
        (#[trigger] c1.roles@[i]).neighboring_relation_planes@ == c2.roles@[i].neighboring_relation_planes@ by {
        assert(canonical_role(roles1[i], c1.roles@[i]));
        assert(canonical_role(roles2[i], c2.roles@[i]));
        assert(same_role_but_plane_order(roles1[i], roles2[i]));
        lemma_canonical_planes_ignore_order(roles1[i].neighboring_relation_planes@, roles2[i].neighboring_relation_planes@);
    }
    assert forall|i: int| 0 <= i < c1.roles@.len() implies (#[trigger] c1.roles@[i]).type_class == c2.roles@[i].type_class
        && c1.roles@[i].cardinality_class == c2.roles@[i].cardinality_class
        && c1.roles@[i].temporal_position == c2.roles@[i].temporal_position
        && c1.roles@[i].constraint_mask == c2.roles@[i].constraint_mask by {
        assert(canonical_role(roles1[i], c1.roles@[i]));
        assert(canonical_role(roles2[i], c2.roles@[i]));
        assert(same_role_but_plane_order(roles1[i], roles2[i]));
    }
}

/// Building an IR is stable across ordering noise: permuting the relations
/// or the composition edges, or reordering or repeating a role's planes,
/// gives the same outcome. Both builds succeed or fail together, with the
/// same error; when they succeed the two IRs have the same contents, the
/// same canonical and executable JSON, and so the same identities.
pub proof fn lemma_new_ignores_ordering_noise(
    r1: Result<CanonicalOperatorIrV1, CanonicalOperatorIrErrorV1>,
    r2: Result<CanonicalOperatorIrV1, CanonicalOperatorIrErrorV1>,
    roles1: Seq<CanonicalOperatorRoleV1>,
    roles2: Seq<CanonicalOperatorRoleV1>,
    relations1: Seq<CanonicalOperatorRelationV1>,
    relations2: Seq<CanonicalOperatorRelationV1>,
    transforms: Seq<CanonicalOperatorTransformV1>,
    edges1: Seq<CanonicalOperatorCompositionEdgeV1>,
    edges2: Seq<CanonicalOperatorCompositionEdgeV1>,
    renderer: CollectionOutputRenderer,
    actor_template: ResponseProgram,
    verifier_contract_sha256: Seq<char>,
)
    requires
        new_outcome(r1, roles1, relations1, transforms, edges1, renderer, actor_template, verifier_contract_sha256),
        new_outcome(r2, roles2, relations2, transforms, edges2, renderer, actor_template, verifier_contract_sha256),
        roles1.len() == roles2.len(),
        forall|i: int| 0 <= i < roles1.len() ==> same_role_but_plane_order(#[trigger] roles1[i], roles2[i]),
        relations1.to_multiset() == relations2.to_multiset(),
        edges1.to_multiset() == edges2.to_multiset(),
    ensures
        (r1 is Ok) == (r2 is Ok),
        r1 is Err ==> r1 == r2,
        (r1 is Ok && r2 is Ok) ==> same_ir(r1->Ok_0, r2->Ok_0) && ir_json(r1->Ok_0) == ir_json(r2->Ok_0)
            && executable_json(r1->Ok_0) == executable_json(r2->Ok_0),
{
    let c1 = match r1 {
        Ok(v) => v,
        Err(e) => choose|c: CanonicalOperatorIrV1| canonical_ir_of(c, roles1, relations1, transforms, edges1,
            renderer, actor_template, verifier_contract_sha256)
            && #[trigger] spec_validate_ir(c) == Err::<(), CanonicalOperatorIrErrorV1>(e),
    };
    let c2 = match r2 {
        Ok(v) => v,
        Err(e) => choose|c: CanonicalOperatorIrV1| canonical_ir_of(c, roles2, relations2, transforms, edges2,
            renderer, actor_template, verifier_contract_sha256)
            && #[trigger] spec_validate_ir(c) == Err::<(), CanonicalOperatorIrErrorV1>(e),
    };
    lemma_canonical_forms_agree(c1, c2, roles1, roles2, relations1, relations2, transforms, edges1, edges2, renderer,
        actor_template, verifier_contract_sha256);
    lemma_same_ir_same_identity(c1, c2);
}

/// The executable identity ignores routing phase: two IRs that differ only
/// in the phase bits of their relations have the same executable JSON, and
/// so the same executable SHA-256.
pub proof fn lemma_executable_identity_ignores_phase(a: CanonicalOperatorIrV1, b: CanonicalOperatorIrV1)
    requires
        a.schema == b.schema,
        a.roles == b.roles,
        a.transforms == b.transforms,
        a.composition_edges == b.composition_edges,
        a.renderer == b.renderer,
        a.actor_template == b.actor_template,
        a.verifier_contract_sha256 == b.verifier_contract_sha256,
        a.relations@.len() == b.relations@.len(),
        forall|i: int| 0 <= i < a.relations@.len()
            ==> #[trigger] executable_relation(a.relations@[i]) == executable_relation(b.relations@[i]),
    ensures
        executable_json(a) == executable_json(b),
{
    let f = |r: CanonicalOperatorRelationV1| executable_relation(r);
    assert(a.relations@.map_values(f) =~= b.relations@.map_values(f));
}

/// Canonical planes depend only on which planes occur, not on their order
/// or repetition.
pub proof fn lemma_canonical_planes_ignore_order(s1: Seq<u8>, s2: Seq<u8>)
    requires
        forall|x: u8| s1.contains(x) == s2.contains(x),
    ensures
        canonical_planes(s1) == canonical_planes(s2),
{
    lemma_planes_below_ignore_order(s1, s2, 256);
}

proof fn lemma_planes_below_ignore_order(s1: Seq<u8>, s2: Seq<u8>, b: int)
    requires
        forall|x: u8| s1.contains(x) == s2.contains(x),
    ensures
        planes_below(s1, b) == planes_below(s2, b),
    decreases b,
{
    if b > 0 {
        lemma_planes_below_ignore_order(s1, s2, b - 1);
        assert(s1.contains((b - 1) as u8) == s2.contains((b - 1) as u8));
    }
}

/// Canonical planes are strictly increasing, as validation requires.
pub proof fn lemma_canonical_planes_increasing(s: Seq<u8>)
    ensures
        strictly_increasing_u8(canonical_planes(s)),
{
    lemma_planes_below_increasing(s, 256);
}

proof fn lemma_planes_below_increasing(s: Seq<u8>, b: int)
    requires
        b <= 256,
    ensures
        strictly_increasing_u8(planes_below(s, b)),
        forall|k: int| 0 <= k < planes_below(s, b).len() ==> (#[trigger] planes_below(s, b)[k] as int) < b,
    decreases b,
{
    if b > 0 {
        lemma_planes_below_increasing(s, b - 1);
        let p = planes_below(s, b - 1);
        if s.contains((b - 1) as u8) {
            let q = p.push((b - 1) as u8);
            assert forall|i: int| 0 <= i && i + 1 < q.len() implies #[trigger] crate::scan::adjacent_lt_u8(q, i) by {
                if i + 1 < p.len() {
                    assert(crate::scan::adjacent_lt_u8(p, i));
                } else {
                    assert((p[i] as int) < b - 1);
                }
            }
            assert forall|k: int| 0 <= k < q.len() implies (#[trigger] q[k] as int) < b by {
                if k < p.len() {
                    assert((p[k] as int) < b - 1);
                }
            }
        }
    }
}

/// What an IR that validates guarantees of its parts: one to 32 roles, one
/// to 256 relations between two distinct known roles with state -1 or 1,
/// one to 16 transforms each writing a known role that is neither of its
/// sources (the second source is a known role or 255 for none), and at most
/// 64 composition edges between two distinct known transforms.
pub proof fn lemma_valid_ir_parts(ir: CanonicalOperatorIrV1)
    requires
        spec_validate_ir(ir) is Ok,
    ensures
        1 <= ir.roles@.len() <= 32,
        1 <= ir.relations@.len() <= 256,
        forall|i: int| 0 <= i < ir.relations@.len() ==> {
            let r = #[trigger] ir.relations@[i];
            &&& r.source_role != r.target_role
            &&& (r.source_role as int) < ir.roles@.len()
            &&& (r.target_role as int) < ir.roles@.len()
            &&& (r.state == -1 || r.state == 1)
        },
        1 <= ir.transforms@.len() <= 16,
        forall|i: int| 0 <= i < ir.transforms@.len() ==> {
            let t = #[trigger] ir.transforms@[i];
            &&& t.output != t.source_a
            &&& t.output != t.source_b
            &&& (t.output as int) < ir.roles@.len()
            &&& (t.source_a as int) < ir.roles@.len()
            &&& (t.source_b == 255 || (t.source_b as int) < ir.roles@.len())
        },
        ir.composition_edges@.len() <= 64,
        forall|i: int| 0 <= i < ir.composition_edges@.len() ==> {
            let e = #[trigger] ir.composition_edges@[i];
            &&& e.producer_step != e.consumer_step
            &&& (e.producer_step as int) < ir.transforms@.len()
            &&& (e.consumer_step as int) < ir.transforms@.len()
        },
{
    let roles = ir.roles@.len() as int;
    assert forall|i: int| 0 <= i < ir.relations@.len() implies relation_ok(#[trigger] ir.relations@[i], roles) by {}
    assert forall|i: int| 0 <= i < ir.transforms@.len() implies transform_ok(#[trigger] ir.transforms@[i], roles) by {}
    assert forall|i: int| 0 <= i < ir.composition_edges@.len()
        implies edge_ok(#[trigger] ir.composition_edges@[i], ir.transforms@.len() as int) by {}
}

} // verus!
