//! Operator generations: a lineage of manifests whose identity covers the
//! sequence, the parent generation and every component root.
use vstd::prelude::*;
use crate::text::utf8;
use crate::json::{
    CanonicalJson, json_str, object, write_str, begin_object, write_member, write_member_str,
    end_object, json_identity, };
use crate::digest::{is_nonzero_sha256_text, valid_nonzero_sha256, sha256_hex};
use crate::json::{tuple, begin_tuple, write_item, write_item_str, end_tuple};
use crate::text::str_eq;
use crate::scan::{lex_lt, bytes_lt};
use crate::executable_protocol_mode::{
    ExecutableProtocolModeArtifactV3, artifact_error, validate_executable_protocol_mode_artifact_v3,
};

verus! {

pub const OPERATOR_GENERATION_MANIFEST_SCHEMA_V3: &'static str = "nando.operator-generation-manifest.v3.f7";
pub const OPERATOR_GENERATION_MANIFEST_MAX_BYTES_V3: usize = 8192;
pub const OPERATOR_GENERATION_MAX_ARTIFACTS_V3: usize = 32;

#[derive(Clone, Copy, Debug, PartialEq, Eq, Structural)]
pub enum GenerationEvidencePartitionV3 {
    Support,
    Future,
}

#[derive(Clone, Debug, PartialEq, Eq)]
pub struct OperatorGenerationComponentRootsV3 {
    pub artifact_set_sha256: String,
    pub dispatch_index_sha256: String,
    pub actor_program_sha256: String,
    pub renderer_program_sha256: String,
    pub verifier_contract_sha256: String,
    pub capability_contract_sha256: String,
    pub resource_budget_sha256: String,
}

/// The sole generation identity. Downstream layers may validate this manifest,
/// but they must not derive a competing generation key.
#[derive(Clone, Debug, PartialEq, Eq)]
pub struct OperatorGenerationManifestV3 {
    pub sequence: u64,
    pub parent_generation_id_sha256: Option<String>,
    pub components: OperatorGenerationComponentRootsV3,
    pub generation_id_sha256: String,
}

#[derive(Clone, Copy, Debug, PartialEq, Eq, Structural)]
pub enum OperatorGenerationErrorV3 {
    InvalidSequence,
    InvalidParent,
    InvalidComponent,
    EmptyArtifactSet,
    ArtifactBudgetExhausted,
    DuplicateArtifact,
    InvalidArtifact,
    InvalidManifest,
    ManifestBudgetExhausted,
    Serialization,
}

impl CanonicalJson for GenerationEvidencePartitionV3 {
    open spec fn json(&self) -> Seq<u8> {
        match self {
            GenerationEvidencePartitionV3::Support => json_str("support"@),
            GenerationEvidencePartitionV3::Future => json_str("future"@),
        }
    }

    fn write_json(&self, out: &mut Vec<u8>) {
        match self {
            GenerationEvidencePartitionV3::Support => write_str(out, "support"),
            GenerationEvidencePartitionV3::Future => write_str(out, "future"),
        }
    }
}

impl CanonicalJson for OperatorGenerationComponentRootsV3 {
    open spec fn json(&self) -> Seq<u8> {
        object(seq![("actor_program_sha256"@, self.actor_program_sha256.json())]
            .push(("artifact_set_sha256"@, self.artifact_set_sha256.json()))
            .push(("capability_contract_sha256"@, self.capability_contract_sha256.json()))
            .push(("dispatch_index_sha256"@, self.dispatch_index_sha256.json()))
            .push(("renderer_program_sha256"@, self.renderer_program_sha256.json()))
            .push(("resource_budget_sha256"@, self.resource_budget_sha256.json()))
            .push(("verifier_contract_sha256"@, self.verifier_contract_sha256.json())))
    }

    fn write_json(&self, out: &mut Vec<u8>) {
        let st = begin_object(out);
        let st = write_member(out, st, "actor_program_sha256", &self.actor_program_sha256);
        let st = write_member(out, st, "artifact_set_sha256", &self.artifact_set_sha256);
        let st = write_member(out, st, "capability_contract_sha256", &self.capability_contract_sha256);
        let st = write_member(out, st, "dispatch_index_sha256", &self.dispatch_index_sha256);
        let st = write_member(out, st, "renderer_program_sha256", &self.renderer_program_sha256);
        let st = write_member(out, st, "resource_budget_sha256", &self.resource_budget_sha256);
        let st = write_member(out, st, "verifier_contract_sha256", &self.verifier_contract_sha256);
        end_object(out, st);
    }
}

/// The canonical JSON of a manifest, schema included.
pub open spec fn manifest_json(m: OperatorGenerationManifestV3) -> Seq<u8> {
    object(seq![("components"@, m.components.json())]
        .push(("generation_id_sha256"@, m.generation_id_sha256.json()))
        .push(("parent_generation_id_sha256"@, m.parent_generation_id_sha256.json()))
        .push(("schema"@, json_str(OPERATOR_GENERATION_MANIFEST_SCHEMA_V3@)))
        .push(("sequence"@, m.sequence.json())))
}

/// The JSON array that a generation identity covers.
pub open spec fn generation_tuple_json(
    sequence: u64,
    parent: Option<String>,
    components: OperatorGenerationComponentRootsV3,
) -> Seq<u8> {
    seq![0x5bu8] + json_str(OPERATOR_GENERATION_MANIFEST_SCHEMA_V3@) + seq![0x2cu8] + sequence.json()
        + seq![0x2cu8] + parent.json() + seq![0x2cu8] + components.json() + seq![0x5du8]
}

/// The generation identity, as lowercase hexadecimal bytes.
pub open spec fn generation_identity(
    sequence: u64,
    parent: Option<String>,
    components: OperatorGenerationComponentRootsV3,
) -> Seq<u8> {
    json_identity(generation_tuple_json(sequence, parent, components))
}

/// What the lineage check gives: a first generation has no parent, every
/// later one names a non-zero parent identity.
pub open spec fn spec_validate_lineage(sequence: u64, parent: Option<String>) -> Result<(), OperatorGenerationErrorV3> {
    if sequence == 0 {
        Err(OperatorGenerationErrorV3::InvalidSequence)
    } else if sequence == 1 {
        if parent is None { Ok(()) } else { Err(OperatorGenerationErrorV3::InvalidParent) }
    } else {
        match parent {
            Some(p) => if is_nonzero_sha256_text(utf8(p@)) { Ok(()) } else { Err(OperatorGenerationErrorV3::InvalidParent) },
            None => Err(OperatorGenerationErrorV3::InvalidParent),
        }
    }
}

/// Every component root is a non-zero SHA-256 digest.
pub open spec fn components_valid(c: OperatorGenerationComponentRootsV3) -> bool {
    &&& is_nonzero_sha256_text(utf8(c.artifact_set_sha256@))
    &&& is_nonzero_sha256_text(utf8(c.dispatch_index_sha256@))
    &&& is_nonzero_sha256_text(utf8(c.actor_program_sha256@))
    &&& is_nonzero_sha256_text(utf8(c.renderer_program_sha256@))
    &&& is_nonzero_sha256_text(utf8(c.verifier_contract_sha256@))
    &&& is_nonzero_sha256_text(utf8(c.capability_contract_sha256@))
    &&& is_nonzero_sha256_text(utf8(c.resource_budget_sha256@))
}

fn validate_lineage(sequence: u64, parent: &Option<String>) -> (r: Result<(), OperatorGenerationErrorV3>)
    ensures
        r == spec_validate_lineage(sequence, *parent),
{
    if sequence == 0 {
        return Err(OperatorGenerationErrorV3::InvalidSequence);
    }
    if sequence == 1 {
        return if parent.is_none() { Ok(()) } else { Err(OperatorGenerationErrorV3::InvalidParent) };
    }
    match parent {
        Some(p) => if valid_nonzero_sha256(p.as_str()) { Ok(()) } else { Err(OperatorGenerationErrorV3::InvalidParent) },
        None => Err(OperatorGenerationErrorV3::InvalidParent),
    }
}

fn validate_components(c: &OperatorGenerationComponentRootsV3) -> (r: bool)
    ensures
        r == components_valid(*c),
{
    valid_nonzero_sha256(c.artifact_set_sha256.as_str()) && valid_nonzero_sha256(c.dispatch_index_sha256.as_str())
        && valid_nonzero_sha256(c.actor_program_sha256.as_str())
        && valid_nonzero_sha256(c.renderer_program_sha256.as_str())
        && valid_nonzero_sha256(c.verifier_contract_sha256.as_str())
        && valid_nonzero_sha256(c.capability_contract_sha256.as_str())
        && valid_nonzero_sha256(c.resource_budget_sha256.as_str())
}

fn generation_digest(sequence: u64, parent: &Option<String>, components: &OperatorGenerationComponentRootsV3) -> (s: String)
    ensures
        utf8(s@) == generation_identity(sequence, *parent, *components),
{
    let mut out: Vec<u8> = Vec::new();
    out.push(0x5b);
    write_str(&mut out, OPERATOR_GENERATION_MANIFEST_SCHEMA_V3);
    out.push(0x2c);
    sequence.write_json(&mut out);
    out.push(0x2c);
    parent.write_json(&mut out);
    out.push(0x2c);
    components.write_json(&mut out);
    out.push(0x5d);
    assert(out@ =~= generation_tuple_json(sequence, *parent, *components));
    sha256_hex(out.as_slice())
}

/// Seals a generation: checks its lineage and components and names it by
/// the digest of its sequence, parent and components.
pub fn seal_operator_generation_manifest_v3(
    sequence: u64,
    parent_generation_id_sha256: Option<String>,
    components: OperatorGenerationComponentRootsV3,
) -> (r: Result<OperatorGenerationManifestV3, OperatorGenerationErrorV3>)
    ensures
        spec_validate_lineage(sequence, parent_generation_id_sha256) matches Err(e)
            ==> r == Err::<OperatorGenerationManifestV3, OperatorGenerationErrorV3>(e),
        spec_validate_lineage(sequence, parent_generation_id_sha256) is Ok && !components_valid(components)
            ==> r == Err::<OperatorGenerationManifestV3, OperatorGenerationErrorV3>(OperatorGenerationErrorV3::InvalidComponent),
        spec_validate_lineage(sequence, parent_generation_id_sha256) is Ok && components_valid(components)
            ==> (r matches Ok(m) && m.sequence == sequence
                && m.parent_generation_id_sha256 == parent_generation_id_sha256
                && m.components == components
                && utf8(m.generation_id_sha256@) == generation_identity(sequence, parent_generation_id_sha256, components)),
{
    match validate_lineage(sequence, &parent_generation_id_sha256) {
        Err(e) => { return Err(e); },
        Ok(_) => {},
    }
    if !validate_components(&components) {
        return Err(OperatorGenerationErrorV3::InvalidComponent);
    }
    let generation_id_sha256 = generation_digest(sequence, &parent_generation_id_sha256, &components);
    Ok(OperatorGenerationManifestV3 { sequence, parent_generation_id_sha256, components, generation_id_sha256 })
}

impl OperatorGenerationManifestV3 {
    /// The canonical bytes of the manifest, schema included.
    pub fn canonical_bytes(&self) -> (r: Result<Vec<u8>, OperatorGenerationErrorV3>)
        ensures
            r matches Ok(b) && b@ == manifest_json(*self),
    {
        let mut out: Vec<u8> = Vec::new();
        let st = begin_object(&mut out);
        let st = write_member(&mut out, st, "components", &self.components);
        let st = write_member(&mut out, st, "generation_id_sha256", &self.generation_id_sha256);
        let st = write_member(&mut out, st, "parent_generation_id_sha256", &self.parent_generation_id_sha256);
        let st = write_member_str(&mut out, st, "schema", OPERATOR_GENERATION_MANIFEST_SCHEMA_V3);
        let st = write_member(&mut out, st, "sequence", &self.sequence);
        end_object(&mut out, st);
        assert(out@ =~= manifest_json(*self));
        Ok(out)
    }

    pub fn sequence(&self) -> (r: u64)
        ensures
            r == self.sequence,
    {
        self.sequence
    }

    pub fn parent_generation_id_sha256(&self) -> (r: Option<&str>)
        ensures
            match self.parent_generation_id_sha256 {
                Some(p) => (r matches Some(s) && s@ == p@),
                None => r is None,
            },
    {
        match &self.parent_generation_id_sha256 {
            Some(p) => Some(p.as_str()),
            None => None,
        }
    }

    pub fn components(&self) -> (r: &OperatorGenerationComponentRootsV3)
        ensures
            *r == self.components,
    {
        &self.components
    }

    pub fn generation_id_sha256(&self) -> (r: &str)
        ensures
            r@ == self.generation_id_sha256@,
    {
        self.generation_id_sha256.as_str()
    }

    /// A manifest never grants execution authority.
    pub fn execution_authority(&self) -> (r: bool)
        ensures
            !r,
    {
        false
    }
}

// ---------------------------------------------------------------- artifact sets

/// Whether an artifact root appears before position `i`.
pub open spec fn root_seen_before(arts: Seq<ExecutableProtocolModeArtifactV3>, i: int) -> bool {
    exists|j: int| 0 <= j < i && (#[trigger] arts[j]).artifact_sha256@ == arts[i].artifact_sha256@
}

/// The first refused or repeated artifact among the first `n`, in order.
pub open spec fn artifact_set_problem(arts: Seq<ExecutableProtocolModeArtifactV3>, n: int) -> Option<OperatorGenerationErrorV3>
    decreases n,
{
    if n <= 0 {
        None
    } else {
        match artifact_set_problem(arts, n - 1) {
            Some(e) => Some(e),
            None => if artifact_error(arts[n - 1]) is Some {
                Some(OperatorGenerationErrorV3::InvalidArtifact)
            } else if root_seen_before(arts, n - 1) {
                Some(OperatorGenerationErrorV3::DuplicateArtifact)
            } else {
                None
            },
        }
    }
}

/// Why a set of artifacts has no root, if it has none.
pub open spec fn artifact_set_error(arts: Seq<ExecutableProtocolModeArtifactV3>) -> Option<OperatorGenerationErrorV3> {
    if arts.len() == 0 {
        Some(OperatorGenerationErrorV3::EmptyArtifactSet)
    } else if arts.len() > OPERATOR_GENERATION_MAX_ARTIFACTS_V3 {
        Some(OperatorGenerationErrorV3::ArtifactBudgetExhausted)
    } else {
        artifact_set_problem(arts, arts.len() as int)
    }
}

/// A root text is in the list.
pub open spec fn root_listed(roots: Seq<String>, y: Seq<char>) -> bool {
    exists|k: int| 0 <= k < roots.len() && (#[trigger] roots[k])@ == y
}

/// A root text belongs to one of the first `i` artifacts.
pub open spec fn root_among(arts: Seq<ExecutableProtocolModeArtifactV3>, i: int, y: Seq<char>) -> bool {
    exists|j: int| 0 <= j < i && (#[trigger] arts[j]).artifact_sha256@ == y
}

fn root_listed_exec(roots: &Vec<String>, x: &str) -> (r: bool)
    ensures
        r == root_listed(roots@, x@),
{
    let mut p: usize = 0;
    while p < roots.len()
        invariant
            p <= roots@.len(),
            forall|k: int| 0 <= k < p ==> (#[trigger] roots@[k])@ != x@,
        decreases roots@.len() - p,
    {
        if str_eq(roots[p].as_str(), x) {
            assert(roots@[p as int]@ == x@);
            return true;
        }
        p = p + 1;
    }
    false
}

/// Puts a root in place in a list sorted by bytes.
pub open spec fn insert_root(s: Seq<String>, x: String) -> Seq<String>
    decreases s.len(),
{
    if s.len() == 0 {
        seq![x]
    } else if lex_lt(utf8(s[0]@), utf8(x@)) {
        seq![s[0]] + insert_root(s.subrange(1, s.len() as int), x)
    } else {
        seq![x] + s
    }
}

/// The roots of the artifacts in byte order.
pub open spec fn sorted_roots(arts: Seq<ExecutableProtocolModeArtifactV3>) -> Seq<String>
    decreases arts.len(),
{
    if arts.len() == 0 {
        Seq::empty()
    } else {
        insert_root(sorted_roots(arts.drop_last()), arts.last().artifact_sha256)
    }
}

/// The root of a set of artifacts: the digest of the set's label and its
/// artifact roots in byte order, as a JSON tuple.
pub open spec fn artifact_set_root(arts: Seq<ExecutableProtocolModeArtifactV3>) -> Seq<u8> {
    json_identity(tuple(seq![json_str("nando.f6.artifact-set.v3"@)].push(crate::json::json_array(sorted_roots(arts)))))
}

proof fn lemma_insert_root_at(s: Seq<String>, x: String, p: int)
    requires
        0 <= p <= s.len(),
        forall|k: int| 0 <= k < p ==> lex_lt(utf8((#[trigger] s[k])@), utf8(x@)),
        p == s.len() || !lex_lt(utf8(s[p]@), utf8(x@)),
    ensures
        insert_root(s, x) == s.insert(p, x),
    decreases s.len(),
{
    if s.len() == 0 {
        assert(s.insert(p, x) =~= seq![x]);
    } else if p == 0 {
        assert(s.insert(0, x) =~= seq![x] + s);
    } else {
        let t = s.subrange(1, s.len() as int);
        assert forall|k: int| 0 <= k < p - 1 implies lex_lt(utf8((#[trigger] t[k])@), utf8(x@)) by {
            assert(t[k] == s[k + 1]);
        }
        if p - 1 < t.len() {
            assert(t[p - 1] == s[p]);
        }
        lemma_insert_root_at(t, x, p - 1);
        assert(s.insert(p, x) =~= seq![s[0]] + t.insert(p - 1, x));
    }
}

/// The identity of a set of executable artifacts: every artifact must pass
/// its checks and appear once; refused when the set is empty or larger than
/// its budget.
pub fn executable_artifact_set_sha256_v3(artifacts: &[ExecutableProtocolModeArtifactV3]) -> (r: Result<String, OperatorGenerationErrorV3>)
    ensures
        artifact_set_error(artifacts@) matches Some(e) ==> r == Err::<String, OperatorGenerationErrorV3>(e),
        artifact_set_error(artifacts@) is None ==> (r matches Ok(s) && utf8(s@) == artifact_set_root(artifacts@)),
{
    if artifacts.len() == 0 {
        return Err(OperatorGenerationErrorV3::EmptyArtifactSet);
    }
    if artifacts.len() > OPERATOR_GENERATION_MAX_ARTIFACTS_V3 {
        return Err(OperatorGenerationErrorV3::ArtifactBudgetExhausted);
    }
    let mut roots: Vec<String> = Vec::new();
    let mut i: usize = 0;
    while i < artifacts.len()
        invariant
            i <= artifacts@.len(),
            0 < artifacts@.len() <= OPERATOR_GENERATION_MAX_ARTIFACTS_V3,
            artifact_set_problem(artifacts@, i as int) is None,
            roots@ == sorted_roots(artifacts@.take(i as int)),
            forall|y: Seq<char>| #![trigger root_listed(roots@, y)] #![trigger root_among(artifacts@, i as int, y)]
                root_listed(roots@, y) <==> root_among(artifacts@, i as int, y),
        decreases artifacts@.len() - i,
    {
        let a = &artifacts[i];
        match validate_executable_protocol_mode_artifact_v3(a) {
            Ok(()) => {},
            Err(_) => {
                proof {
                    lemma_artifact_set_problem_stable(artifacts@, i + 1, artifacts@.len() as int);
                }
                return Err(OperatorGenerationErrorV3::InvalidArtifact);
            },
        }
        if root_listed_exec(&roots, a.artifact_sha256.as_str()) {
            proof {
                let y = a.artifact_sha256@;
                assert(root_listed(roots@, y));
                assert(root_among(artifacts@, i as int, y));
                let j = choose|j: int| 0 <= j < i && (#[trigger] artifacts@[j]).artifact_sha256@ == y;
                assert(root_seen_before(artifacts@, i as int));
                lemma_artifact_set_problem_stable(artifacts@, i + 1, artifacts@.len() as int);
            }
            return Err(OperatorGenerationErrorV3::DuplicateArtifact);
        }
        assert(!root_seen_before(artifacts@, i as int)) by {
            if root_seen_before(artifacts@, i as int) {
                let j = choose|j: int| 0 <= j < i && (#[trigger] artifacts@[j]).artifact_sha256@ == artifacts@[i as int].artifact_sha256@;
                assert(root_among(artifacts@, i as int, artifacts@[i as int].artifact_sha256@));
                assert(root_listed(roots@, artifacts@[i as int].artifact_sha256@));
            }
        }
        let mut q: usize = 0;
        while q < roots.len() && bytes_lt(roots[q].as_str().as_bytes(), a.artifact_sha256.as_str().as_bytes())
            invariant
                q <= roots@.len(),
                forall|k: int| 0 <= k < q ==> lex_lt(utf8((#[trigger] roots@[k])@), utf8(a.artifact_sha256@)),
            decreases roots@.len() - q,
        {
            q = q + 1;
        }
        let ghost before = roots@;
        proof {
            lemma_insert_root_at(before, a.artifact_sha256, q as int);
            assert(artifacts@.take(i + 1).drop_last() =~= artifacts@.take(i as int));
            assert(artifacts@.take(i + 1).last() == *a);
        }
        roots.insert(q, a.artifact_sha256.clone());
        proof {
            assert forall|y: Seq<char>| #![trigger root_listed(roots@, y)] #![trigger root_among(artifacts@, i + 1, y)]
                root_listed(roots@, y) <==> root_among(artifacts@, i + 1, y) by {
                if root_listed(roots@, y) {
                    let k = choose|k: int| 0 <= k < roots@.len() && (#[trigger] roots@[k])@ == y;
                    if k < q {
                        assert(before[k]@ == y);
                        assert(root_listed(before, y));
                    } else if k > q {
                        assert(before[k - 1]@ == y);
                        assert(root_listed(before, y));
                    } else {
                        assert(artifacts@[i as int].artifact_sha256@ == y);
                    }
                }
                if root_among(artifacts@, i + 1, y) {
                    let j = choose|j: int| 0 <= j < i + 1 && (#[trigger] artifacts@[j]).artifact_sha256@ == y;
                    if j < i {
                        assert(root_among(artifacts@, i as int, y));
                        assert(root_listed(before, y));
                        let k = choose|k: int| 0 <= k < before.len() && (#[trigger] before[k])@ == y;
                        if k < q {
                            assert(roots@[k] == before[k]);
                        } else {
                            assert(roots@[k + 1] == before[k]);
                        }
                    } else {
                        assert(roots@[q as int]@ == y);
                    }
                }
            }
        }
        i = i + 1;
    }
    assert(artifacts@.take(artifacts@.len() as int) =~= artifacts@);
    let mut out: Vec<u8> = Vec::new();
    let st = begin_tuple(&mut out);
    let st = write_item_str(&mut out, st, "nando.f6.artifact-set.v3");
    let st = write_item(&mut out, st, &roots);
    end_tuple(&mut out, st);
    Ok(sha256_hex(out.as_slice()))
}

proof fn lemma_artifact_set_problem_stable(arts: Seq<ExecutableProtocolModeArtifactV3>, i: int, n: int)
    requires
        0 <= i <= n,
        artifact_set_problem(arts, i) is Some,
    ensures
        artifact_set_problem(arts, n) == artifact_set_problem(arts, i),
    decreases n - i,
{
    if i < n {
        lemma_artifact_set_problem_stable(arts, i, n - 1);
    }
}

} // verus!
