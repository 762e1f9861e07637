//! The learning request structure and the commitment to its pre-action topology.
use vstd::prelude::*;
use crate::text::{utf8, str_eq, lemma_utf8_injective};
use crate::json::{CanonicalJson, json_str, write_str, json_identity, canonical_json_sha256};
use crate::digest::{is_nonzero_sha256_text, valid_nonzero_sha256, sha256_hex};
use crate::scan::{strictly_increasing, increasing_u64, strictly_increasing_text, strings_increasing, texts};
use crate::multi_source::topology::{PreActionMultiSourceTopologyV1, spec_validate_topology};

verus! {

pub const LEARNING_REQUEST_STRUCTURE_SCHEMA_V2: &'static str = "nando.learning-request-structure.v2";
pub const PRE_ACTION_TOPOLOGY_COMMIT_SCHEMA_V1: &'static str = "nando.pre-action-topology-commit.v1";

#[derive(Clone, Debug, PartialEq, Eq)]
pub struct LearningRequestStructureV2 {
    pub schema: String,
    pub turn_intent_id_sha256: String,
    pub request_event_id_sha256: String,
    pub provider_bound_turn_identity: bool,
    pub session_lineage_roots_sha256: Vec<String>,
    pub request_phase_atom_ids: Vec<u64>,
    pub pre_action_context_atom_ids: Vec<u64>,
    pub capability_atom_ids: Vec<u64>,
    pub estimated_input_tokens: u64,
    pub provider_payload_bytes: u64,
    pub provider_capture_request_root_sha256: String,
    pub decidability_reason_code: String,
    pub topology: PreActionMultiSourceTopologyV1,
}

#[derive(Clone, Copy, Debug, PartialEq, Eq, Structural)]
pub enum MultiSourceEvidenceOriginV1 {
    FreshLive,
    RecoveredArchive,
}

#[derive(Clone, Debug, PartialEq, Eq)]
pub struct PreActionTopologyCommitV1 {
    pub schema: String,
    pub turn_intent_id_sha256: String,
    pub evidence_origin: MultiSourceEvidenceOriginV1,
    pub provider_capture_request_root_sha256: String,
    pub topology_root_sha256: String,
    pub extractor_root_sha256: String,
    pub config_root_sha256: String,
    pub capture_sequence: u64,
    pub commitment_root_sha256: String,
}

impl CanonicalJson for MultiSourceEvidenceOriginV1 {
    open spec fn json(&self) -> Seq<u8> {
        match self {
            MultiSourceEvidenceOriginV1::FreshLive => json_str("fresh_live"@),
            MultiSourceEvidenceOriginV1::RecoveredArchive => json_str("recovered_archive"@),
        }
    }

    fn write_json(&self, out: &mut Vec<u8>) {
        match self {
            MultiSourceEvidenceOriginV1::FreshLive => write_str(out, "fresh_live"),
            MultiSourceEvidenceOriginV1::RecoveredArchive => write_str(out, "recovered_archive"),
        }
    }
}

pub open spec fn nonzero_digest(s: String) -> bool {
    is_nonzero_sha256_text(utf8(s@))
}

/// The structure's own bounds, before its topology.
pub open spec fn structure_ok(s: LearningRequestStructureV2) -> bool {
    &&& s.schema@ == LEARNING_REQUEST_STRUCTURE_SCHEMA_V2@
    &&& nonzero_digest(s.turn_intent_id_sha256)
    &&& nonzero_digest(s.provider_capture_request_root_sha256)
    &&& (s.request_event_id_sha256@.len() == 0 || nonzero_digest(s.request_event_id_sha256))
    &&& s.session_lineage_roots_sha256@.len() <= 4
    &&& s.request_phase_atom_ids@.len() <= 256
    &&& s.pre_action_context_atom_ids@.len() <= 256
    &&& s.capability_atom_ids@.len() <= 64
    &&& s.provider_payload_bytes != 0
    &&& s.decidability_reason_code@.len() > 0
    &&& forall|i: int| 0 <= i < s.session_lineage_roots_sha256@.len()
        ==> nonzero_digest(#[trigger] s.session_lineage_roots_sha256@[i])
    &&& strictly_increasing_text(texts(s.session_lineage_roots_sha256@))
    &&& strictly_increasing(s.request_phase_atom_ids@)
    &&& strictly_increasing(s.pre_action_context_atom_ids@)
    &&& strictly_increasing(s.capability_atom_ids@)
}

/// What validating a learning request structure gives.
pub open spec fn spec_validate_structure(s: LearningRequestStructureV2) -> Result<(), &'static str> {
    if !structure_ok(s) {
        Err("learning_request_structure_v2_invalid")
    } else {
        spec_validate_topology(s.topology)
    }
}

fn all_nonzero(v: &[String]) -> (r: bool)
    ensures
        r == forall|i: int| 0 <= i < v@.len() ==> nonzero_digest(#[trigger] v@[i]),
{
    let mut i: usize = 0;
    while i < v.len()
        invariant
            i <= v@.len(),
            forall|k: int| 0 <= k < i ==> nonzero_digest(#[trigger] v@[k]),
        decreases v@.len() - i,
    {
        if !valid_nonzero_sha256(v[i].as_str()) {
            return false;
        }
        i = i + 1;
    }
    true
}

impl LearningRequestStructureV2 {
    pub fn validate(&self) -> (r: Result<(), &'static str>)
        ensures
            r == spec_validate_structure(*self),
    {
        if !str_eq(self.schema.as_str(), LEARNING_REQUEST_STRUCTURE_SCHEMA_V2)
            || !valid_nonzero_sha256(self.turn_intent_id_sha256.as_str())
            || !valid_nonzero_sha256(self.provider_capture_request_root_sha256.as_str())
            || (!self.request_event_id_sha256.as_str().is_empty()
                && !valid_nonzero_sha256(self.request_event_id_sha256.as_str()))
            || self.session_lineage_roots_sha256.len() > 4
            || self.request_phase_atom_ids.len() > 256
            || self.pre_action_context_atom_ids.len() > 256
            || self.capability_atom_ids.len() > 64
            || self.provider_payload_bytes == 0
            || self.decidability_reason_code.as_str().is_empty()
            || !all_nonzero(self.session_lineage_roots_sha256.as_slice())
            || !strings_increasing(self.session_lineage_roots_sha256.as_slice())
            || !increasing_u64(self.request_phase_atom_ids.as_slice())
            || !increasing_u64(self.pre_action_context_atom_ids.as_slice())
            || !increasing_u64(self.capability_atom_ids.as_slice()) {
            return Err("learning_request_structure_v2_invalid");
        }
        self.topology.validate()
    }

    /// The SHA-256 identity of the topology of a valid structure.
    pub fn topology_root_sha256(&self) -> (r: Result<String, &'static str>)
        ensures
            match spec_validate_structure(*self) {
                Ok(_) => (r matches Ok(s) && utf8(s@) == json_identity(self.topology.json())),
                Err(e) => r == Err::<String, &'static str>(e),
            },
    {
        match self.validate() {
            Err(e) => Err(e),
            Ok(_) => Ok(canonical_json_sha256(&self.topology)),
        }
    }
}

/// The JSON array that the commitment root covers.
pub open spec fn commit_tuple_json(c: PreActionTopologyCommitV1) -> Seq<u8> {
    seq![0x5bu8] + json_str(PRE_ACTION_TOPOLOGY_COMMIT_SCHEMA_V1@) + seq![0x2cu8]
        + json_str(c.turn_intent_id_sha256@) + seq![0x2cu8] + c.evidence_origin.json() + seq![0x2cu8]
        + json_str(c.provider_capture_request_root_sha256@) + seq![0x2cu8] + json_str(c.topology_root_sha256@)
        + seq![0x2cu8] + json_str(c.extractor_root_sha256@) + seq![0x2cu8] + json_str(c.config_root_sha256@)
        + seq![0x2cu8] + c.capture_sequence.json() + seq![0x5du8]
}

/// The commitment root expected for a commit, as lowercase hexadecimal bytes.
pub open spec fn expected_commit_root(c: PreActionTopologyCommitV1) -> Seq<u8> {
    json_identity(commit_tuple_json(c))
}

/// A valid commit: the schema, a positive capture sequence, non-zero roots,
/// and the commitment root that its fields give.
pub open spec fn commit_valid(c: PreActionTopologyCommitV1) -> bool {
    &&& c.schema@ == PRE_ACTION_TOPOLOGY_COMMIT_SCHEMA_V1@
    &&& c.capture_sequence != 0
    &&& nonzero_digest(c.turn_intent_id_sha256)
    &&& nonzero_digest(c.provider_capture_request_root_sha256)
    &&& nonzero_digest(c.topology_root_sha256)
    &&& nonzero_digest(c.extractor_root_sha256)
    &&& nonzero_digest(c.config_root_sha256)
    &&& utf8(c.commitment_root_sha256@) == expected_commit_root(c)
}

fn expected_root(c: &PreActionTopologyCommitV1) -> (s: String)
    ensures
        utf8(s@) == expected_commit_root(*c),
{
    let mut out: Vec<u8> = Vec::new();
    out.push(0x5b);
    write_str(&mut out, PRE_ACTION_TOPOLOGY_COMMIT_SCHEMA_V1);
    out.push(0x2c);
    write_str(&mut out, c.turn_intent_id_sha256.as_str());
    out.push(0x2c);
    c.evidence_origin.write_json(&mut out);
    out.push(0x2c);
    write_str(&mut out, c.provider_capture_request_root_sha256.as_str());
    out.push(0x2c);
    write_str(&mut out, c.topology_root_sha256.as_str());
    out.push(0x2c);
    write_str(&mut out, c.extractor_root_sha256.as_str());
    out.push(0x2c);
    write_str(&mut out, c.config_root_sha256.as_str());
    out.push(0x2c);
    c.capture_sequence.write_json(&mut out);
    out.push(0x5d);
    assert(out@ =~= commit_tuple_json(*c));
    sha256_hex(out.as_slice())
}

/// The commit sealed for a structure: its turn and capture roots, the given
/// origin, extractor, configuration and sequence, the topology identity,
/// and the commitment root of all of them.
pub open spec fn sealed_commit(
    c: PreActionTopologyCommitV1,
    structure: LearningRequestStructureV2,
    evidence_origin: MultiSourceEvidenceOriginV1,
    extractor_root_sha256: Seq<char>,
    config_root_sha256: Seq<char>,
    capture_sequence: u64,
) -> bool {
    &&& c.schema@ == PRE_ACTION_TOPOLOGY_COMMIT_SCHEMA_V1@
    &&& c.turn_intent_id_sha256@ == structure.turn_intent_id_sha256@
    &&& c.evidence_origin == evidence_origin
    &&& c.provider_capture_request_root_sha256@ == structure.provider_capture_request_root_sha256@
    &&& utf8(c.topology_root_sha256@) == json_identity(structure.topology.json())
    &&& c.extractor_root_sha256@ == extractor_root_sha256
    &&& c.config_root_sha256@ == config_root_sha256
    &&& c.capture_sequence == capture_sequence
    &&& utf8(c.commitment_root_sha256@) == expected_commit_root(c)
}

impl PreActionTopologyCommitV1 {
    /// Commits to the topology of a valid structure before any action.
    pub fn seal(
        structure: &LearningRequestStructureV2,
        evidence_origin: MultiSourceEvidenceOriginV1,
        extractor_root_sha256: String,
        config_root_sha256: String,
        capture_sequence: u64,
    ) -> (r: Result<Self, &'static str>)
        ensures
            spec_validate_structure(*structure) matches Err(e) ==> r == Err::<Self, &'static str>(e),
            spec_validate_structure(*structure) is Ok && (capture_sequence == 0
                || !is_nonzero_sha256_text(utf8(extractor_root_sha256@))
                || !is_nonzero_sha256_text(utf8(config_root_sha256@)))
                ==> r == Err::<Self, &'static str>("pre_action_topology_commit_input_invalid"),
            spec_validate_structure(*structure) is Ok && capture_sequence != 0
                && is_nonzero_sha256_text(utf8(extractor_root_sha256@))
                && is_nonzero_sha256_text(utf8(config_root_sha256@))
                ==> (r matches Ok(c) && sealed_commit(c, *structure, evidence_origin, extractor_root_sha256@,
                    config_root_sha256@, capture_sequence)),
    {
        match structure.validate() {
            Err(e) => { return Err(e); },
            Ok(_) => {},
        }
        if capture_sequence == 0 || !valid_nonzero_sha256(extractor_root_sha256.as_str())
            || !valid_nonzero_sha256(config_root_sha256.as_str()) {
            return Err("pre_action_topology_commit_input_invalid");
        }
        let topology_root_sha256 = match structure.topology_root_sha256() {
            Err(e) => { return Err(e); },
            Ok(s) => s,
        };
        let mut commit = PreActionTopologyCommitV1 {
            schema: PRE_ACTION_TOPOLOGY_COMMIT_SCHEMA_V1.to_owned(),
            turn_intent_id_sha256: structure.turn_intent_id_sha256.clone(),
            evidence_origin,
            provider_capture_request_root_sha256: structure.provider_capture_request_root_sha256.clone(),
            topology_root_sha256,
            extractor_root_sha256,
            config_root_sha256,
            capture_sequence,
            commitment_root_sha256: String::new(),
        };
        let root = expected_root(&commit);
        commit.commitment_root_sha256 = root;
        Ok(commit)
    }

    pub fn validate(&self) -> (r: Result<(), &'static str>)
        ensures
            r is Ok <==> commit_valid(*self),
            r is Err ==> r == Err::<(), &'static str>("pre_action_topology_commit_invalid"),
    {
        let expected = expected_root(self);
        proof {
            lemma_utf8_injective(expected@, self.commitment_root_sha256@);
        }
        if !str_eq(self.schema.as_str(), PRE_ACTION_TOPOLOGY_COMMIT_SCHEMA_V1)
            || self.capture_sequence == 0
            || !valid_nonzero_sha256(self.turn_intent_id_sha256.as_str())
            || !valid_nonzero_sha256(self.provider_capture_request_root_sha256.as_str())
            || !valid_nonzero_sha256(self.topology_root_sha256.as_str())
            || !valid_nonzero_sha256(self.extractor_root_sha256.as_str())
            || !valid_nonzero_sha256(self.config_root_sha256.as_str())
            || !str_eq(self.commitment_root_sha256.as_str(), expected.as_str()) {
            return Err("pre_action_topology_commit_invalid");
        }
        Ok(())
    }
}

} // verus!
