//! The pre-action topology of a multi-source request: typed role nodes,
//! witnesses and relation edges, with their bounds.
use vstd::prelude::*;
use crate::text::utf8;
use crate::json::{
    CanonicalJson, json_str, object, write_str, begin_object, write_member, write_member_str, end_object,
};
use crate::digest::{is_nonzero_sha256_text, valid_nonzero_sha256};
use crate::scan::{strictly_increasing_u16, increasing_u16};

verus! {

pub const MULTI_SOURCE_MAX_ROLE_NODES_V1: usize = 32;
pub const MULTI_SOURCE_MAX_RELATION_EDGES_V1: usize = 64;

#[derive(Clone, Copy, Debug, PartialEq, Eq, PartialOrd, Ord, Structural)]
pub enum MultiSourceTypeClassV1 {
    Null,
    Boolean,
    Number,
    String,
    Array,
    Object,
}

#[derive(Clone, Copy, Debug, PartialEq, Eq, PartialOrd, Ord, Structural)]
pub enum MultiSourceContainerClassV1 {
    Scalar,
    Sequence,
    Mapping,
}

#[derive(Clone, Copy, Debug, PartialEq, Eq, PartialOrd, Ord, Structural)]
pub enum MultiSourceCardinalityClassV1 {
    Zero,
    One,
    Many,
}

#[derive(Clone, Copy, Debug, PartialEq, Eq, PartialOrd, Ord, Structural)]
pub enum MultiSourceTemporalClassV1 {
    Historical,
    Latest,
}

#[derive(Clone, Debug, PartialEq, Eq, PartialOrd, Ord)]
pub struct MultiSourceRoleNodeV1 {
    pub local_role_id: u16,
    pub source_ordinal: u16,
    pub value_ordinal: u16,
    pub type_class: MultiSourceTypeClassV1,
    pub container_class: MultiSourceContainerClassV1,
    pub cardinality_class: MultiSourceCardinalityClassV1,
    pub temporal_class: MultiSourceTemporalClassV1,
    pub depth_bucket: u8,
    pub structural_flags: u16,
}

#[derive(Clone, Debug, PartialEq, Eq, PartialOrd, Ord)]
pub struct MultiSourceRoleWitnessV1 {
    pub local_role_id: u16,
    pub value_sha256: String,
    pub request_reference_ordinal: Option<u16>,
    pub request_reference_ordinal_candidates: Vec<u16>,
}

#[derive(Clone, Copy, Debug, PartialEq, Eq, PartialOrd, Ord, Structural)]
pub enum MultiSourceRelationKindV1 {
    Contains,
    Precedes,
    SameOutput,
    LatestOutput,
    ContinuationHandle,
    RequestReferencesRole,
    CapabilityPermitsRole,
}

#[derive(Clone, Debug, PartialEq, Eq, PartialOrd, Ord)]
pub struct MultiSourceRelationEdgeV1 {
    pub relation: MultiSourceRelationKindV1,
    pub source_role_id: u16,
    pub target_role_id: u16,
}

#[derive(Clone, Debug, PartialEq, Eq)]
pub enum MultiSourceExtractionStatusV1 {
    Complete,
    Censored { reason: String },
}

#[derive(Clone, Debug, PartialEq, Eq)]
pub struct PreActionMultiSourceTopologyV1 {
    pub extraction_status: MultiSourceExtractionStatusV1,
    pub grounded_output_count: u16,
    pub output_part_count: u16,
    pub roles: Vec<MultiSourceRoleNodeV1>,
    pub role_witnesses: Vec<MultiSourceRoleWitnessV1>,
    pub relations: Vec<MultiSourceRelationEdgeV1>,
}

// ---------------------------------------------------------------- canonical JSON

impl CanonicalJson for MultiSourceTypeClassV1 {
    open spec fn json(&self) -> Seq<u8> {
        match self {
            MultiSourceTypeClassV1::Null => json_str("null"@),
            MultiSourceTypeClassV1::Boolean => json_str("boolean"@),
            MultiSourceTypeClassV1::Number => json_str("number"@),
            MultiSourceTypeClassV1::String => json_str("string"@),
            MultiSourceTypeClassV1::Array => json_str("array"@),
            MultiSourceTypeClassV1::Object => json_str("object"@),
        }
    }

    fn write_json(&self, out: &mut Vec<u8>) {
        match self {
            MultiSourceTypeClassV1::Null => write_str(out, "null"),
            MultiSourceTypeClassV1::Boolean => write_str(out, "boolean"),
            MultiSourceTypeClassV1::Number => write_str(out, "number"),
            MultiSourceTypeClassV1::String => write_str(out, "string"),
            MultiSourceTypeClassV1::Array => write_str(out, "array"),
            MultiSourceTypeClassV1::Object => write_str(out, "object"),
        }
    }
}

impl CanonicalJson for MultiSourceContainerClassV1 {
    open spec fn json(&self) -> Seq<u8> {
        match self {
            MultiSourceContainerClassV1::Scalar => json_str("scalar"@),
            MultiSourceContainerClassV1::Sequence => json_str("sequence"@),
            MultiSourceContainerClassV1::Mapping => json_str("mapping"@),
        }
    }

    fn write_json(&self, out: &mut Vec<u8>) {
        match self {
            MultiSourceContainerClassV1::Scalar => write_str(out, "scalar"),
            MultiSourceContainerClassV1::Sequence => write_str(out, "sequence"),
            MultiSourceContainerClassV1::Mapping => write_str(out, "mapping"),
        }
    }
}

impl CanonicalJson for MultiSourceCardinalityClassV1 {
    open spec fn json(&self) -> Seq<u8> {
        match self {
            MultiSourceCardinalityClassV1::Zero => json_str("zero"@),
            MultiSourceCardinalityClassV1::One => json_str("one"@),
            MultiSourceCardinalityClassV1::Many => json_str("many"@),
        }
    }

    fn write_json(&self, out: &mut Vec<u8>) {
        match self {
            MultiSourceCardinalityClassV1::Zero => write_str(out, "zero"),
            MultiSourceCardinalityClassV1::One => write_str(out, "one"),
            MultiSourceCardinalityClassV1::Many => write_str(out, "many"),
        }
    }
}

impl CanonicalJson for MultiSourceTemporalClassV1 {
    open spec fn json(&self) -> Seq<u8> {
        match self {
            MultiSourceTemporalClassV1::Historical => json_str("historical"@),
            MultiSourceTemporalClassV1::Latest => json_str("latest"@),
        }
    }

    fn write_json(&self, out: &mut Vec<u8>) {
        match self {
            MultiSourceTemporalClassV1::Historical => write_str(out, "historical"),
            MultiSourceTemporalClassV1::Latest => write_str(out, "latest"),
        }
    }
}

impl CanonicalJson for MultiSourceRelationKindV1 {
    open spec fn json(&self) -> Seq<u8> {
        match self {
            MultiSourceRelationKindV1::Contains => json_str("contains"@),
            MultiSourceRelationKindV1::Precedes => json_str("precedes"@),
            MultiSourceRelationKindV1::SameOutput => json_str("same_output"@),
            MultiSourceRelationKindV1::LatestOutput => json_str("latest_output"@),
            MultiSourceRelationKindV1::ContinuationHandle => json_str("continuation_handle"@),
            MultiSourceRelationKindV1::RequestReferencesRole => json_str("request_references_role"@),
            MultiSourceRelationKindV1::CapabilityPermitsRole => json_str("capability_permits_role"@),
        }
    }

    fn write_json(&self, out: &mut Vec<u8>) {
        match self {
            MultiSourceRelationKindV1::Contains => write_str(out, "contains"),
            MultiSourceRelationKindV1::Precedes => write_str(out, "precedes"),
            MultiSourceRelationKindV1::SameOutput => write_str(out, "same_output"),
            MultiSourceRelationKindV1::LatestOutput => write_str(out, "latest_output"),
            MultiSourceRelationKindV1::ContinuationHandle => write_str(out, "continuation_handle"),
            MultiSourceRelationKindV1::RequestReferencesRole => write_str(out, "request_references_role"),
            MultiSourceRelationKindV1::CapabilityPermitsRole => write_str(out, "capability_permits_role"),
        }
    }
}

impl CanonicalJson for MultiSourceRoleNodeV1 {
    open spec fn json(&self) -> Seq<u8> {
        object(seq![("cardinality_class"@, self.cardinality_class.json())]
            .push(("container_class"@, self.container_class.json()))
            .push(("depth_bucket"@, self.depth_bucket.json()))
            .push(("local_role_id"@, self.local_role_id.json()))
            .push(("source_ordinal"@, self.source_ordinal.json()))
            .push(("structural_flags"@, self.structural_flags.json()))
            .push(("temporal_class"@, self.temporal_class.json()))
            .push(("type_class"@, self.type_class.json()))
            .push(("value_ordinal"@, self.value_ordinal.json())))
    }

    fn write_json(&self, out: &mut Vec<u8>) {
        let st = begin_object(out);
        let st = write_member(out, st, "cardinality_class", &self.cardinality_class);
        let st = write_member(out, st, "container_class", &self.container_class);
        let st = write_member(out, st, "depth_bucket", &self.depth_bucket);
        let st = write_member(out, st, "local_role_id", &self.local_role_id);
        let st = write_member(out, st, "source_ordinal", &self.source_ordinal);
        let st = write_member(out, st, "structural_flags", &self.structural_flags);
        let st = write_member(out, st, "temporal_class", &self.temporal_class);
        let st = write_member(out, st, "type_class", &self.type_class);
        let st = write_member(out, st, "value_ordinal", &self.value_ordinal);
        end_object(out, st);
    }
}

/// The members of a witness; an absent ordinal and an empty candidate list are left out.
pub open spec fn witness_fields(w: MultiSourceRoleWitnessV1) -> Seq<(Seq<char>, Seq<u8>)> {
    let a = seq![("local_role_id"@, w.local_role_id.json())];
    let b = match w.request_reference_ordinal {
        Some(o) => a.push(("request_reference_ordinal"@, o.json())),
        None => a,
    };
    let c = if w.request_reference_ordinal_candidates@.len() == 0 {
        b
    } else {
        b.push(("request_reference_ordinal_candidates"@, w.request_reference_ordinal_candidates.json()))
    };
    c.push(("value_sha256"@, w.value_sha256.json()))
}

impl CanonicalJson for MultiSourceRoleWitnessV1 {
    open spec fn json(&self) -> Seq<u8> {
        object(witness_fields(*self))
    }

    fn write_json(&self, out: &mut Vec<u8>) {
        let st = begin_object(out);
        let st = write_member(out, st, "local_role_id", &self.local_role_id);
        let st = match &self.request_reference_ordinal {
            Some(o) => write_member(out, st, "request_reference_ordinal", o),
            None => st,
        };
        let st = if self.request_reference_ordinal_candidates.len() == 0 {
            st
        } else {
            write_member(out, st, "request_reference_ordinal_candidates", &self.request_reference_ordinal_candidates)
        };
        let st = write_member(out, st, "value_sha256", &self.value_sha256);
        end_object(out, st);
    }
}

impl CanonicalJson for MultiSourceRelationEdgeV1 {
    open spec fn json(&self) -> Seq<u8> {
        object(seq![("relation"@, self.relation.json())]
            .push(("source_role_id"@, self.source_role_id.json()))
            .push(("target_role_id"@, self.target_role_id.json())))
    }

    fn write_json(&self, out: &mut Vec<u8>) {
        let st = begin_object(out);
        let st = write_member(out, st, "relation", &self.relation);
        let st = write_member(out, st, "source_role_id", &self.source_role_id);
        let st = write_member(out, st, "target_role_id", &self.target_role_id);
        end_object(out, st);
    }
}

impl CanonicalJson for MultiSourceExtractionStatusV1 {
    open spec fn json(&self) -> Seq<u8> {
        match self {
            MultiSourceExtractionStatusV1::Complete => object(seq![("status"@, json_str("complete"@))]),
            MultiSourceExtractionStatusV1::Censored { reason } =>
                object(seq![("reason"@, reason.json())].push(("status"@, json_str("censored"@)))),
        }
    }

    fn write_json(&self, out: &mut Vec<u8>) {
        let st = begin_object(out);
        match self {
            MultiSourceExtractionStatusV1::Complete => {
                let st = write_member_str(out, st, "status", "complete");
                end_object(out, st);
            },
            MultiSourceExtractionStatusV1::Censored { reason } => {
                let st = write_member(out, st, "reason", reason);
                let st = write_member_str(out, st, "status", "censored");
                end_object(out, st);
            },
        }
    }
}

/// The members of a topology; an empty witness list is left out.
pub open spec fn topology_fields(t: PreActionMultiSourceTopologyV1) -> Seq<(Seq<char>, Seq<u8>)> {
    let a = seq![("extraction_status"@, t.extraction_status.json())]
        .push(("grounded_output_count"@, t.grounded_output_count.json()))
        .push(("output_part_count"@, t.output_part_count.json()))
        .push(("relations"@, t.relations.json()));
    let b = if t.role_witnesses@.len() == 0 { a } else { a.push(("role_witnesses"@, t.role_witnesses.json())) };
    b.push(("roles"@, t.roles.json()))
}

impl CanonicalJson for PreActionMultiSourceTopologyV1 {
    open spec fn json(&self) -> Seq<u8> {
        object(topology_fields(*self))
    }

    fn write_json(&self, out: &mut Vec<u8>) {
        let st = begin_object(out);
        let st = write_member(out, st, "extraction_status", &self.extraction_status);
        let st = write_member(out, st, "grounded_output_count", &self.grounded_output_count);
        let st = write_member(out, st, "output_part_count", &self.output_part_count);
        let st = write_member(out, st, "relations", &self.relations);
        let st = if self.role_witnesses.len() == 0 { st } else { write_member(out, st, "role_witnesses", &self.role_witnesses) };
        let st = write_member(out, st, "roles", &self.roles);
        end_object(out, st);
    }
}

// ---------------------------------------------------------------- validation

/// The position of a relation kind in declaration order.
pub open spec fn kind_rank(k: MultiSourceRelationKindV1) -> int {
    match k {
        MultiSourceRelationKindV1::Contains => 0,
        MultiSourceRelationKindV1::Precedes => 1,
        MultiSourceRelationKindV1::SameOutput => 2,
        MultiSourceRelationKindV1::LatestOutput => 3,
        MultiSourceRelationKindV1::ContinuationHandle => 4,
        MultiSourceRelationKindV1::RequestReferencesRole => 5,
        MultiSourceRelationKindV1::CapabilityPermitsRole => 6,
    }
}

fn kind_rank_exec(k: MultiSourceRelationKindV1) -> (r: u8)
    ensures
        r as int == kind_rank(k),
{
    match k {
        MultiSourceRelationKindV1::Contains => 0,
        MultiSourceRelationKindV1::Precedes => 1,
        MultiSourceRelationKindV1::SameOutput => 2,
        MultiSourceRelationKindV1::LatestOutput => 3,
        MultiSourceRelationKindV1::ContinuationHandle => 4,
        MultiSourceRelationKindV1::RequestReferencesRole => 5,
        MultiSourceRelationKindV1::CapabilityPermitsRole => 6,
    }
}

/// The order of edges: by relation kind, then source, then target.
pub open spec fn edge_lt(a: MultiSourceRelationEdgeV1, b: MultiSourceRelationEdgeV1) -> bool {
    if kind_rank(a.relation) != kind_rank(b.relation) {
        kind_rank(a.relation) < kind_rank(b.relation)
    } else if a.source_role_id != b.source_role_id {
        a.source_role_id < b.source_role_id
    } else {
        a.target_role_id < b.target_role_id
    }
}

fn edge_less(a: &MultiSourceRelationEdgeV1, b: &MultiSourceRelationEdgeV1) -> (r: bool)
    ensures
        r == edge_lt(*a, *b),
{
    let ka = kind_rank_exec(a.relation);
    let kb = kind_rank_exec(b.relation);
    if ka != kb {
        ka < kb
    } else if a.source_role_id != b.source_role_id {
        a.source_role_id < b.source_role_id
    } else {
        a.target_role_id < b.target_role_id
    }
}

pub open spec fn roles_adjacent_lt(s: Seq<MultiSourceRoleNodeV1>, i: int) -> bool {
    s[i].local_role_id < s[i + 1].local_role_id
}

pub open spec fn witnesses_adjacent_lt(s: Seq<MultiSourceRoleWitnessV1>, i: int) -> bool {
    s[i].local_role_id < s[i + 1].local_role_id
}

pub open spec fn edges_adjacent_lt(s: Seq<MultiSourceRelationEdgeV1>, i: int) -> bool {
    edge_lt(s[i], s[i + 1])
}

/// Some role has the given local id.
pub open spec fn has_role(roles: Seq<MultiSourceRoleNodeV1>, id: u16) -> bool {
    exists|k: int| 0 <= k < roles.len() && #[trigger] roles[k].local_role_id == id
}

/// The structural part of the topology: bounded, ordered, and every edge
/// joins known roles.
pub open spec fn topology_shape_ok(t: PreActionMultiSourceTopologyV1) -> bool {
    &&& t.roles@.len() <= 32
    &&& t.relations@.len() <= 64
    &&& forall|i: int| 0 <= i && i + 1 < t.roles@.len() ==> #[trigger] roles_adjacent_lt(t.roles@, i)
    &&& forall|i: int| 0 <= i && i + 1 < t.role_witnesses@.len() ==> #[trigger] witnesses_adjacent_lt(t.role_witnesses@, i)
    &&& forall|i: int| 0 <= i && i + 1 < t.relations@.len() ==> #[trigger] edges_adjacent_lt(t.relations@, i)
    &&& forall|i: int| 0 <= i < t.relations@.len() ==> has_role(t.roles@, (#[trigger] t.relations@[i]).source_role_id)
        && has_role(t.roles@, t.relations@[i].target_role_id)
}

/// The witness refers to the request (by an ordinal or candidates).
pub open spec fn references_request(w: MultiSourceRoleWitnessV1) -> bool {
    w.request_reference_ordinal is Some || w.request_reference_ordinal_candidates@.len() > 0
}

/// Some edge says that the request references the role itself.
pub open spec fn has_self_reference(edges: Seq<MultiSourceRelationEdgeV1>, id: u16) -> bool {
    exists|k: int| 0 <= k < edges.len() && (#[trigger] edges[k]).relation == MultiSourceRelationKindV1::RequestReferencesRole
        && edges[k].source_role_id == id && edges[k].target_role_id == id
}

pub open spec fn candidate_ok(c: Seq<u16>, i: int) -> bool {
    c[i] <= 15
}

/// A witness of a known role with a non-zero value digest and at most one
/// form of bounded request reference, which the edges record exactly.
pub open spec fn witness_ok(t: PreActionMultiSourceTopologyV1, w: MultiSourceRoleWitnessV1) -> bool {
    let c = w.request_reference_ordinal_candidates@;
    &&& is_nonzero_sha256_text(utf8(w.value_sha256@))
    &&& !(w.request_reference_ordinal is Some && c.len() > 0)
    &&& (match w.request_reference_ordinal { Some(o) => o <= 15, None => true })
    &&& c.len() <= 16
    &&& forall|i: int| 0 <= i < c.len() ==> #[trigger] candidate_ok(c, i)
    &&& strictly_increasing_u16(c)
    &&& has_role(t.roles@, w.local_role_id)
    &&& references_request(w) == has_self_reference(t.relations@, w.local_role_id)
}

/// Some witness refers to the ordinal `x`.
pub open spec fn ordinal_present(ws: Seq<MultiSourceRoleWitnessV1>, x: u16) -> bool {
    exists|k: int| 0 <= k < ws.len() && (#[trigger] ws[k]).request_reference_ordinal == Some(x)
}

/// Unless some witness is ambiguous, the referenced ordinals are exactly
/// `0 .. k` for some `k`: every ordinal below a referenced one is referenced.
pub open spec fn ordinals_contiguous(ws: Seq<MultiSourceRoleWitnessV1>) -> bool {
    (exists|k: int| 0 <= k < ws.len() && (#[trigger] ws[k]).request_reference_ordinal_candidates@.len() > 0)
    || forall|x: u16, y: u16| y < x <= 15 && #[trigger] ordinal_present(ws, x) ==> #[trigger] ordinal_present(ws, y)
}

/// What validating a topology gives.
pub open spec fn spec_validate_topology(t: PreActionMultiSourceTopologyV1) -> Result<(), &'static str> {
    if !topology_shape_ok(t) {
        Err("multi_source_topology_invalid")
    } else if t.role_witnesses@.len() > 0 && (
        t.role_witnesses@.len() != t.roles@.len()
        || (exists|i: int| 0 <= i < t.role_witnesses@.len() && !witness_ok(t, #[trigger] t.role_witnesses@[i]))
        || !ordinals_contiguous(t.role_witnesses@)) {
        Err("multi_source_role_witness_invalid")
    } else {
        Ok(())
    }
}

fn has_role_exec(roles: &[MultiSourceRoleNodeV1], id: u16) -> (r: bool)
    ensures
        r == has_role(roles@, id),
{
    let mut k: usize = 0;
    while k < roles.len()
        invariant
            k <= roles@.len(),
            forall|j: int| 0 <= j < k ==> #[trigger] roles@[j].local_role_id != id,
        decreases roles@.len() - k,
    {
        if roles[k].local_role_id == id {
            return true;
        }
        k = k + 1;
    }
    false
}

fn has_self_reference_exec(edges: &[MultiSourceRelationEdgeV1], id: u16) -> (r: bool)
    ensures
        r == has_self_reference(edges@, id),
{
    let mut k: usize = 0;
    while k < edges.len()
        invariant
            k <= edges@.len(),
            forall|j: int| 0 <= j < k ==> !((#[trigger] edges@[j]).relation == MultiSourceRelationKindV1::RequestReferencesRole
                && edges@[j].source_role_id == id && edges@[j].target_role_id == id),
        decreases edges@.len() - k,
    {
        let e = &edges[k];
        if e.relation == MultiSourceRelationKindV1::RequestReferencesRole && e.source_role_id == id && e.target_role_id == id {
            return true;
        }
        k = k + 1;
    }
    false
}

#[verifier::loop_isolation(false)]
fn shape_ok_exec(t: &PreActionMultiSourceTopologyV1) -> (r: bool)
    ensures
        r == topology_shape_ok(*t),
{
    if t.roles.len() > 32 || t.relations.len() > 64 {
        return false;
    }
    let mut i: usize = 0;
    while i < t.roles.len() && i + 1 < t.roles.len()
        invariant
            i <= t.roles@.len(),
            forall|k: int| 0 <= k < i && k + 1 < t.roles@.len() ==> #[trigger] roles_adjacent_lt(t.roles@, k),
        decreases t.roles@.len() - i,
    {
        if t.roles[i].local_role_id >= t.roles[i + 1].local_role_id {
            assert(!roles_adjacent_lt(t.roles@, i as int));
            return false;
        }
        i = i + 1;
    }
    let mut i: usize = 0;
    while i < t.role_witnesses.len() && i + 1 < t.role_witnesses.len()
        invariant
            i <= t.role_witnesses@.len(),
            forall|k: int| 0 <= k < i && k + 1 < t.role_witnesses@.len() ==> #[trigger] witnesses_adjacent_lt(t.role_witnesses@, k),
        decreases t.role_witnesses@.len() - i,
    {
        if t.role_witnesses[i].local_role_id >= t.role_witnesses[i + 1].local_role_id {
            assert(!witnesses_adjacent_lt(t.role_witnesses@, i as int));
            return false;
        }
        i = i + 1;
    }
    let mut i: usize = 0;
    while i < t.relations.len()
        invariant
            i <= t.relations@.len(),
            forall|k: int| 0 <= k < i && k + 1 < t.relations@.len() ==> #[trigger] edges_adjacent_lt(t.relations@, k),
            forall|k: int| 0 <= k < i ==> has_role(t.roles@, (#[trigger] t.relations@[k]).source_role_id)
                && has_role(t.roles@, t.relations@[k].target_role_id),
        decreases t.relations@.len() - i,
    {
        if i + 1 < t.relations.len() && !edge_less(&t.relations[i], &t.relations[i + 1]) {
            assert(!edges_adjacent_lt(t.relations@, i as int));
            return false;
        }
        let e = &t.relations[i];
        if !has_role_exec(t.roles.as_slice(), e.source_role_id) || !has_role_exec(t.roles.as_slice(), e.target_role_id) {
            return false;
        }
        i = i + 1;
    }
    true
}

fn candidates_ok(c: &[u16]) -> (r: bool)
    ensures
        r == (forall|i: int| 0 <= i < c@.len() ==> #[trigger] candidate_ok(c@, i)),
{
    let mut i: usize = 0;
    while i < c.len()
        invariant
            i <= c@.len(),
            forall|k: int| 0 <= k < i ==> #[trigger] candidate_ok(c@, k),
        decreases c@.len() - i,
    {
        if c[i] > 15 {
            assert(!candidate_ok(c@, i as int));
            return false;
        }
        i = i + 1;
    }
    true
}

fn witness_ok_exec(t: &PreActionMultiSourceTopologyV1, w: &MultiSourceRoleWitnessV1) -> (r: bool)
    ensures
        r == witness_ok(*t, *w),
{
    let c = w.request_reference_ordinal_candidates.as_slice();
    let ordinal_ok = match w.request_reference_ordinal {
        Some(o) => o <= 15,
        None => true,
    };
    let refers = w.request_reference_ordinal.is_some() || c.len() > 0;
    valid_nonzero_sha256(w.value_sha256.as_str())
    && !(w.request_reference_ordinal.is_some() && c.len() > 0)
    && ordinal_ok
    && c.len() <= 16
    && candidates_ok(c)
    && increasing_u16(c)
    && has_role_exec(t.roles.as_slice(), w.local_role_id)
    && refers == has_self_reference_exec(t.relations.as_slice(), w.local_role_id)
}

fn ordinal_present_exec(ws: &[MultiSourceRoleWitnessV1], x: u16) -> (r: bool)
    ensures
        r == ordinal_present(ws@, x),
{
    let mut k: usize = 0;
    while k < ws.len()
        invariant
            k <= ws@.len(),
            forall|j: int| 0 <= j < k ==> (#[trigger] ws@[j]).request_reference_ordinal != Some(x),
        decreases ws@.len() - k,
    {
        match ws[k].request_reference_ordinal {
            Some(o) => if o == x {
                return true;
            },
            None => {},
        }
        k = k + 1;
    }
    false
}

#[verifier::loop_isolation(false)]
fn ordinals_contiguous_exec(ws: &[MultiSourceRoleWitnessV1]) -> (r: bool)
    ensures
        r == ordinals_contiguous(ws@),
{
    let mut k: usize = 0;
    while k < ws.len()
        invariant
            k <= ws@.len(),
            forall|j: int| 0 <= j < k ==> (#[trigger] ws@[j]).request_reference_ordinal_candidates@.len() == 0,
        decreases ws@.len() - k,
    {
        if ws[k].request_reference_ordinal_candidates.len() > 0 {
            return true;
        }
        k = k + 1;
    }
    let mut gap = false;
    let ghost mut g: u16 = 16;
    let mut x: u16 = 0;
    while x <= 15
        invariant
            x <= 16,
            g <= 16,
            gap ==> g < x,
            !gap ==> g == 16,
            forall|y: u16| y < x && y < g ==> ordinal_present(ws@, y),
            forall|z: u16| g <= z < x ==> !ordinal_present(ws@, z),
        decreases 16 - x,
    {
        let present = ordinal_present_exec(ws, x);
        if present && gap {
            assert(!ordinals_contiguous(ws@)) by {
                assert(ordinal_present(ws@, x) && !ordinal_present(ws@, g) && g < x && x <= 15);
            }
            return false;
        }
        if !present && !gap {
            gap = true;
            proof {
                g = x;
            }
        }
        x = x + 1;
    }
    proof {
        assert forall|a: u16, b: u16| b < a <= 15 && #[trigger] ordinal_present(ws@, a) implies #[trigger] ordinal_present(ws@, b) by {
            if a >= g {
                assert(!ordinal_present(ws@, a));
            }
        }
    }
    true
}

impl PreActionMultiSourceTopologyV1 {
    /// Checks the bounds, order and references of the topology and its witnesses.
    #[verifier::loop_isolation(false)]
    pub fn validate(&self) -> (r: Result<(), &'static str>)
        ensures
            r == spec_validate_topology(*self),
    {
        if !shape_ok_exec(self) {
            return Err("multi_source_topology_invalid");
        }
        if self.role_witnesses.len() == 0 {
            return Ok(());
        }
        if self.role_witnesses.len() != self.roles.len() {
            return Err("multi_source_role_witness_invalid");
        }
        let mut i: usize = 0;
        while i < self.role_witnesses.len()
            invariant
                i <= self.role_witnesses@.len(),
                forall|k: int| 0 <= k < i ==> witness_ok(*self, #[trigger] self.role_witnesses@[k]),
            decreases self.role_witnesses@.len() - i,
        {
            if !witness_ok_exec(self, &self.role_witnesses[i]) {
                return Err("multi_source_role_witness_invalid");
            }
            i = i + 1;
        }
        if !ordinals_contiguous_exec(self.role_witnesses.as_slice()) {
            return Err("multi_source_role_witness_invalid");
        }
        Ok(())
    }
}

} // verus!
