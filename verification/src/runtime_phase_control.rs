//! Sealed evidence of the runtime phase controls: one observation per
//! control, bounded coherence values, and a digest over the evidence.
use vstd::prelude::*;
use crate::text::{utf8, str_eq, lemma_utf8_injective, bytes_eq};
use crate::json::{
    CanonicalJson, json_str, json_array, object, begin_object, write_member, end_object, write_str, write_array, write_raw, canonical_json_bytes, json_identity,
};
use crate::digest::{is_nonzero_sha256_text, valid_nonzero_sha256, sha256_hex};

verus! {

pub const RUNTIME_PHASE_CONTROL_EVIDENCE_SCHEMA_V3: &'static str = "nando.runtime-phase-control-evidence.v3.f8d";
pub const RUNTIME_PHASE_COHERENCE_SCALE_FIXED_V3: i64 = 1_000_000_000;
pub const RUNTIME_PHASE_APPLICABILITY_FLOOR_FIXED_V3: i64 = 900_000_000;
pub const RUNTIME_PHASE_CONTROL_MAX_EXACT_CHECKS_V3: u32 = 2_048;

#[derive(Clone, Copy, Debug, PartialEq, Eq, PartialOrd, Ord, Hash, Structural)]
pub enum RuntimePhaseControlKindV3 {
    Full,
    NoPhase,
    ShuffledPhase,
    MagnitudeOnly,
    MatchedRandomCenter,
}

/// The control expected at each position of the evidence, in order.
pub open spec fn control_at(i: int) -> RuntimePhaseControlKindV3 {
    if i == 0 {
        RuntimePhaseControlKindV3::Full
    } else if i == 1 {
        RuntimePhaseControlKindV3::NoPhase
    } else if i == 2 {
        RuntimePhaseControlKindV3::ShuffledPhase
    } else if i == 3 {
        RuntimePhaseControlKindV3::MagnitudeOnly
    } else {
        RuntimePhaseControlKindV3::MatchedRandomCenter
    }
}

fn control_at_exec(i: usize) -> (r: RuntimePhaseControlKindV3)
    ensures
        r == control_at(i as int),
{
    if i == 0 {
        RuntimePhaseControlKindV3::Full
    } else if i == 1 {
        RuntimePhaseControlKindV3::NoPhase
    } else if i == 2 {
        RuntimePhaseControlKindV3::ShuffledPhase
    } else if i == 3 {
        RuntimePhaseControlKindV3::MagnitudeOnly
    } else {
        RuntimePhaseControlKindV3::MatchedRandomCenter
    }
}

#[derive(Clone, Copy, Debug, PartialEq, Eq, Structural)]
pub enum RuntimePhaseSelectionV3 {
    Selected,
    AbstainStructuralBoundary,
    AbstainAmbiguousAction,
    AbstainTie,
    AbstainNoCandidate,
    AbstainCoherenceFloor,
}

#[derive(Clone, Debug, PartialEq, Eq)]
pub struct RuntimePhaseControlObservationV3 {
    pub control: RuntimePhaseControlKindV3,
    pub selection: RuntimePhaseSelectionV3,
    pub exact_action_checks: u32,
    pub selected_physical_action_sha256: Option<String>,
    pub winner_coherence_fixed: Option<i64>,
    pub runner_up_coherence_fixed: Option<i64>,
}

#[derive(Clone, Debug, PartialEq, Eq)]
pub struct RuntimePhaseControlEvidenceV3 {
    pub schema: String,
    pub index_sha256: String,
    pub request_view_sha256: String,
    pub report_sha256: String,
    pub observations: Vec<RuntimePhaseControlObservationV3>,
    pub evidence_sha256: String,
    pub raw_payloads_persisted: u8,
    pub execution_authority: bool,
}

#[derive(Clone, Debug, PartialEq, Eq)]
pub struct RuntimePhaseControlObservationInputV3 {
    pub control: RuntimePhaseControlKindV3,
    pub selection: RuntimePhaseSelectionV3,
    pub exact_action_checks: u32,
    pub selected_physical_action_sha256: Option<String>,
    pub winner_coherence_fixed: Option<i64>,
    pub runner_up_coherence_fixed: Option<i64>,
}

#[derive(Clone, Debug, PartialEq, Eq)]
pub struct RuntimePhaseControlEvidenceInputV3 {
    pub index_sha256: String,
    pub request_view_sha256: String,
    pub report_sha256: String,
    pub observations: Vec<RuntimePhaseControlObservationInputV3>,
}

#[derive(Clone, Copy, Debug, PartialEq, Eq, Structural)]
pub enum RuntimePhaseControlEvidenceErrorV3 {
    InvalidInput,
    InvalidEvidence,
    Serialization,
}

// ---------------------------------------------------------------- canonical JSON

impl CanonicalJson for RuntimePhaseControlKindV3 {
    open spec fn json(&self) -> Seq<u8> {
        match self {
            RuntimePhaseControlKindV3::Full => json_str("full"@),
            RuntimePhaseControlKindV3::NoPhase => json_str("no_phase"@),
            RuntimePhaseControlKindV3::ShuffledPhase => json_str("shuffled_phase"@),
            RuntimePhaseControlKindV3::MagnitudeOnly => json_str("magnitude_only"@),
            RuntimePhaseControlKindV3::MatchedRandomCenter => json_str("matched_random_center"@),
        }
    }

    fn write_json(&self, out: &mut Vec<u8>) {
        match self {
            RuntimePhaseControlKindV3::Full => write_str(out, "full"),
            RuntimePhaseControlKindV3::NoPhase => write_str(out, "no_phase"),
            RuntimePhaseControlKindV3::ShuffledPhase => write_str(out, "shuffled_phase"),
            RuntimePhaseControlKindV3::MagnitudeOnly => write_str(out, "magnitude_only"),
            RuntimePhaseControlKindV3::MatchedRandomCenter => write_str(out, "matched_random_center"),
        }
    }
}

impl CanonicalJson for RuntimePhaseSelectionV3 {
    open spec fn json(&self) -> Seq<u8> {
        match self {
            RuntimePhaseSelectionV3::Selected => json_str("selected"@),
            RuntimePhaseSelectionV3::AbstainStructuralBoundary => json_str("abstain_structural_boundary"@),
            RuntimePhaseSelectionV3::AbstainAmbiguousAction => json_str("abstain_ambiguous_action"@),
            RuntimePhaseSelectionV3::AbstainTie => json_str("abstain_tie"@),
            RuntimePhaseSelectionV3::AbstainNoCandidate => json_str("abstain_no_candidate"@),
            RuntimePhaseSelectionV3::AbstainCoherenceFloor => json_str("abstain_coherence_floor"@),
        }
    }

    fn write_json(&self, out: &mut Vec<u8>) {
        match self {
            RuntimePhaseSelectionV3::Selected => write_str(out, "selected"),
            RuntimePhaseSelectionV3::AbstainStructuralBoundary => write_str(out, "abstain_structural_boundary"),
            RuntimePhaseSelectionV3::AbstainAmbiguousAction => write_str(out, "abstain_ambiguous_action"),
            RuntimePhaseSelectionV3::AbstainTie => write_str(out, "abstain_tie"),
            RuntimePhaseSelectionV3::AbstainNoCandidate => write_str(out, "abstain_no_candidate"),
            RuntimePhaseSelectionV3::AbstainCoherenceFloor => write_str(out, "abstain_coherence_floor"),
        }
    }
}

impl CanonicalJson for RuntimePhaseControlObservationV3 {
    open spec fn json(&self) -> Seq<u8> {
        object(seq![("control"@, self.control.json())]
            .push(("exact_action_checks"@, self.exact_action_checks.json()))
            .push(("runner_up_coherence_fixed"@, self.runner_up_coherence_fixed.json()))
            .push(("selected_physical_action_sha256"@, self.selected_physical_action_sha256.json()))
            .push(("selection"@, self.selection.json()))
            .push(("winner_coherence_fixed"@, self.winner_coherence_fixed.json())))
    }

    fn write_json(&self, out: &mut Vec<u8>) {
        let st = begin_object(out);
        let st = write_member(out, st, "control", &self.control);
        let st = write_member(out, st, "exact_action_checks", &self.exact_action_checks);
        let st = write_member(out, st, "runner_up_coherence_fixed", &self.runner_up_coherence_fixed);
        let st = write_member(out, st, "selected_physical_action_sha256", &self.selected_physical_action_sha256);
        let st = write_member(out, st, "selection", &self.selection);
        let st = write_member(out, st, "winner_coherence_fixed", &self.winner_coherence_fixed);
        end_object(out, st);
    }
}

impl CanonicalJson for RuntimePhaseControlEvidenceV3 {
    open spec fn json(&self) -> Seq<u8> {
        object(seq![("evidence_sha256"@, self.evidence_sha256.json())]
            .push(("execution_authority"@, self.execution_authority.json()))
            .push(("index_sha256"@, self.index_sha256.json()))
            .push(("observations"@, self.observations.json()))
            .push(("raw_payloads_persisted"@, self.raw_payloads_persisted.json()))
            .push(("report_sha256"@, self.report_sha256.json()))
            .push(("request_view_sha256"@, self.request_view_sha256.json()))
            .push(("schema"@, self.schema.json())))
    }

    fn write_json(&self, out: &mut Vec<u8>) {
        let st = begin_object(out);
        let st = write_member(out, st, "evidence_sha256", &self.evidence_sha256);
        let st = write_member(out, st, "execution_authority", &self.execution_authority);
        let st = write_member(out, st, "index_sha256", &self.index_sha256);
        let st = write_member(out, st, "observations", &self.observations);
        let st = write_member(out, st, "raw_payloads_persisted", &self.raw_payloads_persisted);
        let st = write_member(out, st, "report_sha256", &self.report_sha256);
        let st = write_member(out, st, "request_view_sha256", &self.request_view_sha256);
        let st = write_member(out, st, "schema", &self.schema);
        end_object(out, st);
    }
}

/// The JSON array that the evidence digest covers: schema, the three input
/// roots, the observations, no persisted payloads and no authority.
pub open spec fn digest_tuple_json(
    index: Seq<char>,
    request_view: Seq<char>,
    report: Seq<char>,
    observations: Seq<RuntimePhaseControlObservationV3>,
) -> Seq<u8> {
    seq![0x5bu8] + json_str(RUNTIME_PHASE_CONTROL_EVIDENCE_SCHEMA_V3@) + seq![0x2cu8] + json_str(index)
        + seq![0x2cu8] + json_str(request_view) + seq![0x2cu8] + json_str(report) + seq![0x2cu8]
        + json_array(observations) + utf8(",0,false]"@)
}

/// The digest of the evidence, as lowercase hexadecimal bytes.
pub open spec fn evidence_digest_text(e: RuntimePhaseControlEvidenceV3) -> Seq<u8> {
    json_identity(digest_tuple_json(e.index_sha256@, e.request_view_sha256@, e.report_sha256@, e.observations@))
}

fn evidence_digest(e: &RuntimePhaseControlEvidenceV3) -> (s: String)
    ensures
        utf8(s@) == evidence_digest_text(*e),
{
    let mut out: Vec<u8> = Vec::new();
    out.push(0x5b);
    write_str(&mut out, RUNTIME_PHASE_CONTROL_EVIDENCE_SCHEMA_V3);
    out.push(0x2c);
    write_str(&mut out, e.index_sha256.as_str());
    out.push(0x2c);
    write_str(&mut out, e.request_view_sha256.as_str());
    out.push(0x2c);
    write_str(&mut out, e.report_sha256.as_str());
    out.push(0x2c);
    write_array(&mut out, e.observations.as_slice());
    write_raw(&mut out, ",0,false]");
    assert(out@ =~= digest_tuple_json(e.index_sha256@, e.request_view_sha256@, e.report_sha256@, e.observations@));
    sha256_hex(out.as_slice())
}

// ---------------------------------------------------------------- validity

/// `|v|` exceeds the fixed-point coherence scale.
pub open spec fn out_of_scale(v: Option<i64>) -> bool {
    match v {
        Some(x) => x > RUNTIME_PHASE_COHERENCE_SCALE_FIXED_V3 || x < -RUNTIME_PHASE_COHERENCE_SCALE_FIXED_V3,
        None => false,
    }
}

/// An observation is refused when it exceeds the exact-check budget, names a
/// selected action exactly when it did not select, has an out-of-scale
/// coherence, or selected below the applicability floor.
pub open spec fn observation_invalid(o: RuntimePhaseControlObservationV3) -> bool {
    let selected = o.selection == RuntimePhaseSelectionV3::Selected;
    let root_valid = match o.selected_physical_action_sha256 {
        Some(s) => is_nonzero_sha256_text(utf8(s@)),
        None => false,
    };
    o.exact_action_checks > RUNTIME_PHASE_CONTROL_MAX_EXACT_CHECKS_V3
    || selected != root_valid
    || out_of_scale(o.winner_coherence_fixed)
    || out_of_scale(o.runner_up_coherence_fixed)
    || (selected && match o.winner_coherence_fixed {
        Some(v) => v < RUNTIME_PHASE_APPLICABILITY_FLOOR_FIXED_V3,
        None => true,
    })
}

/// The observation at `i` is the expected control and is not refused.
pub open spec fn observation_ok(obs: Seq<RuntimePhaseControlObservationV3>, i: int) -> bool {
    obs[i].control == control_at(i) && !observation_invalid(obs[i])
}

/// Valid evidence: the schema, non-zero roots, the five controls in order,
/// no persisted payloads, no execution authority, every observation
/// acceptable, and a digest that matches.
pub open spec fn evidence_valid(e: RuntimePhaseControlEvidenceV3) -> bool {
    &&& e.schema@ == RUNTIME_PHASE_CONTROL_EVIDENCE_SCHEMA_V3@
    &&& is_nonzero_sha256_text(utf8(e.index_sha256@))
    &&& is_nonzero_sha256_text(utf8(e.request_view_sha256@))
    &&& is_nonzero_sha256_text(utf8(e.report_sha256@))
    &&& is_nonzero_sha256_text(utf8(e.evidence_sha256@))
    &&& e.observations@.len() == 5
    &&& forall|i: int| 0 <= i < 5 ==> #[trigger] observation_ok(e.observations@, i)
    &&& e.raw_payloads_persisted == 0
    &&& !e.execution_authority
    &&& utf8(e.evidence_sha256@) == evidence_digest_text(e)
}

fn out_of_scale_exec(v: Option<i64>) -> (r: bool)
    ensures
        r == out_of_scale(v),
{
    match v {
        Some(x) => x > RUNTIME_PHASE_COHERENCE_SCALE_FIXED_V3 || x < -RUNTIME_PHASE_COHERENCE_SCALE_FIXED_V3,
        None => false,
    }
}

fn invalid_observation(o: &RuntimePhaseControlObservationV3) -> (r: bool)
    ensures
        r == observation_invalid(*o),
{
    let selected = o.selection == RuntimePhaseSelectionV3::Selected;
    let root_valid = match &o.selected_physical_action_sha256 {
        Some(s) => valid_nonzero_sha256(s.as_str()),
        None => false,
    };
    let below_floor = match o.winner_coherence_fixed {
        Some(v) => v < RUNTIME_PHASE_APPLICABILITY_FLOOR_FIXED_V3,
        None => true,
    };
    o.exact_action_checks > RUNTIME_PHASE_CONTROL_MAX_EXACT_CHECKS_V3
    || selected != root_valid
    || out_of_scale_exec(o.winner_coherence_fixed)
    || out_of_scale_exec(o.runner_up_coherence_fixed)
    || (selected && below_floor)
}

fn validate_evidence(e: &RuntimePhaseControlEvidenceV3) -> (r: Result<(), RuntimePhaseControlEvidenceErrorV3>)
    ensures
        r is Ok <==> evidence_valid(*e),
        r is Err ==> r == Err::<(), RuntimePhaseControlEvidenceErrorV3>(RuntimePhaseControlEvidenceErrorV3::InvalidEvidence),
{
    if !str_eq(e.schema.as_str(), RUNTIME_PHASE_CONTROL_EVIDENCE_SCHEMA_V3)
        || !valid_nonzero_sha256(e.index_sha256.as_str())
        || !valid_nonzero_sha256(e.request_view_sha256.as_str())
        || !valid_nonzero_sha256(e.report_sha256.as_str())
        || !valid_nonzero_sha256(e.evidence_sha256.as_str())
        || e.observations.len() != 5
        || e.raw_payloads_persisted != 0
        || e.execution_authority {
        return Err(RuntimePhaseControlEvidenceErrorV3::InvalidEvidence);
    }
    let mut i: usize = 0;
    while i < 5
        invariant
            i <= 5,
            e.observations@.len() == 5,
            forall|k: int| 0 <= k < i ==> #[trigger] observation_ok(e.observations@, k),
        decreases 5 - i,
    {
        let o = &e.observations[i];
        if o.control != control_at_exec(i) || invalid_observation(o) {
            assert(!observation_ok(e.observations@, i as int));
            return Err(RuntimePhaseControlEvidenceErrorV3::InvalidEvidence);
        }
        i = i + 1;
    }
    let digest = evidence_digest(e);
    proof {
        lemma_utf8_injective(digest@, e.evidence_sha256@);
    }
    if !str_eq(digest.as_str(), e.evidence_sha256.as_str()) {
        return Err(RuntimePhaseControlEvidenceErrorV3::InvalidEvidence);
    }
    Ok(())
}

// ---------------------------------------------------------------- sealing

/// The observation recorded for an input observation, field by field.
pub open spec fn observation_of(i: RuntimePhaseControlObservationInputV3, o: RuntimePhaseControlObservationV3) -> bool {
    &&& o.control == i.control
    &&& o.selection == i.selection
    &&& o.exact_action_checks == i.exact_action_checks
    &&& o.selected_physical_action_sha256 == i.selected_physical_action_sha256
    &&& o.winner_coherence_fixed == i.winner_coherence_fixed
    &&& o.runner_up_coherence_fixed == i.runner_up_coherence_fixed
}

/// The evidence sealed from an input: its roots and observations, no
/// payloads, no authority, and the digest of all of them.
pub open spec fn sealed_from(input: RuntimePhaseControlEvidenceInputV3, e: RuntimePhaseControlEvidenceV3) -> bool {
    &&& e.schema@ == RUNTIME_PHASE_CONTROL_EVIDENCE_SCHEMA_V3@
    &&& e.index_sha256 == input.index_sha256
    &&& e.request_view_sha256 == input.request_view_sha256
    &&& e.report_sha256 == input.report_sha256
    &&& e.observations@.len() == input.observations@.len()
    &&& forall|k: int| 0 <= k < e.observations@.len() ==> #[trigger] observation_of(input.observations@[k], e.observations@[k])
    &&& e.raw_payloads_persisted == 0
    &&& !e.execution_authority
    &&& utf8(e.evidence_sha256@) == evidence_digest_text(e)
}

fn convert_observation(i: RuntimePhaseControlObservationInputV3) -> (o: RuntimePhaseControlObservationV3)
    ensures
        observation_of(i, o),
{
    RuntimePhaseControlObservationV3 {
        control: i.control,
        selection: i.selection,
        exact_action_checks: i.exact_action_checks,
        selected_physical_action_sha256: i.selected_physical_action_sha256,
        winner_coherence_fixed: i.winner_coherence_fixed,
        runner_up_coherence_fixed: i.runner_up_coherence_fixed,
    }
}

/// Accepts evidence decoded from the given bytes only when it is valid and
/// the bytes are exactly its canonical JSON; anything else is refused as
/// invalid evidence.
pub fn accept_decoded_runtime_phase_control_evidence_v3(
    evidence: RuntimePhaseControlEvidenceV3,
    bytes: &[u8],
) -> (r: Result<RuntimePhaseControlEvidenceV3, RuntimePhaseControlEvidenceErrorV3>)
    ensures
        evidence_valid(evidence) && evidence.json() == bytes@
            ==> r == Ok::<RuntimePhaseControlEvidenceV3, RuntimePhaseControlEvidenceErrorV3>(evidence),
        !(evidence_valid(evidence) && evidence.json() == bytes@)
            ==> r == Err::<RuntimePhaseControlEvidenceV3, RuntimePhaseControlEvidenceErrorV3>(
            RuntimePhaseControlEvidenceErrorV3::InvalidEvidence,
        ),
{
    match validate_evidence(&evidence) {
        Err(e) => Err(e),
        Ok(_) => {
            let canonical = canonical_json_bytes(&evidence);
            if bytes_eq(canonical.as_slice(), bytes) {
                Ok(evidence)
            } else {
                Err(RuntimePhaseControlEvidenceErrorV3::InvalidEvidence)
            }
        },
    }
}

/// Seals the evidence of the runtime phase controls: records the
/// observations, computes the digest and accepts the result only when it
/// is valid.
pub fn seal_runtime_phase_control_evidence_v3(
    input: RuntimePhaseControlEvidenceInputV3,
) -> (r: Result<RuntimePhaseControlEvidenceV3, RuntimePhaseControlEvidenceErrorV3>)
    ensures
        match r {
            Ok(e) => sealed_from(input, e) && evidence_valid(e),
            Err(err) => err == RuntimePhaseControlEvidenceErrorV3::InvalidEvidence
                && forall|e: RuntimePhaseControlEvidenceV3| #[trigger] sealed_from(input, e) ==> !evidence_valid(e),
        },
{
    let ghost input_view = input;
    let RuntimePhaseControlEvidenceInputV3 { index_sha256, request_view_sha256, report_sha256, observations } = input;
    let mut converted: Vec<RuntimePhaseControlObservationV3> = Vec::new();
    let mut rest = observations;
    let ghost all = rest@;
    let mut i: usize = 0;
    let n = rest.len();
    while i < n
        invariant
            n == all.len(),
            i <= n,
            rest@ == all.subrange(i as int, n as int),
            converted@.len() == i,
            forall|k: int| 0 <= k < i ==> #[trigger] observation_of(all[k], converted@[k]),
        decreases n - i,
    {
        let item = rest.remove(0);
        assert(item == all[i as int]);
        converted.push(convert_observation(item));
        assert(rest@ =~= all.subrange(i + 1, n as int));
        i = i + 1;
    }
    let mut evidence = RuntimePhaseControlEvidenceV3 {
        schema: RUNTIME_PHASE_CONTROL_EVIDENCE_SCHEMA_V3.to_owned(),
        index_sha256,
        request_view_sha256,
        report_sha256,
        observations: converted,
        evidence_sha256: String::new(),
        raw_payloads_persisted: 0,
        execution_authority: false,
    };
    let digest = evidence_digest(&evidence);
    evidence.evidence_sha256 = digest;
    assert(sealed_from(input_view, evidence));
    proof {
        assert forall|e: RuntimePhaseControlEvidenceV3| #[trigger] sealed_from(input_view, e)
            implies evidence_valid(e) == evidence_valid(evidence) by {
            assert(e.observations@ =~= evidence.observations@) by {
                assert forall|k: int| 0 <= k < e.observations@.len() implies e.observations@[k] == evidence.observations@[k] by {
                    assert(observation_of(input_view.observations@[k], e.observations@[k]));
                    assert(observation_of(input_view.observations@[k], evidence.observations@[k]));
                }
            }
            lemma_utf8_injective(e.evidence_sha256@, evidence.evidence_sha256@);
        }
    }
    match validate_evidence(&evidence) {
        Ok(_) => Ok(evidence),
        Err(err) => Err(err),
    }
}

impl RuntimePhaseControlEvidenceV3 {
    /// The canonical JSON bytes of valid evidence.
    pub fn canonical_bytes(&self) -> (r: Result<Vec<u8>, RuntimePhaseControlEvidenceErrorV3>)
        ensures
            evidence_valid(*self) ==> (r matches Ok(b) && b@ == self.json()),
            !evidence_valid(*self) ==> r == Err::<Vec<u8>, RuntimePhaseControlEvidenceErrorV3>(
                RuntimePhaseControlEvidenceErrorV3::InvalidEvidence),
    {
        match validate_evidence(self) {
            Err(e) => Err(e),
            Ok(_) => Ok(canonical_json_bytes(self)),
        }
    }

    pub fn index_sha256(&self) -> (r: &str)
        ensures
            r@ == self.index_sha256@,
    {
        self.index_sha256.as_str()
    }

    pub fn request_view_sha256(&self) -> (r: &str)
        ensures
            r@ == self.request_view_sha256@,
    {
        self.request_view_sha256.as_str()
    }

    pub fn report_sha256(&self) -> (r: &str)
        ensures
            r@ == self.report_sha256@,
    {
        self.report_sha256.as_str()
    }

    pub fn observations(&self) -> (r: &[RuntimePhaseControlObservationV3])
        ensures
            r@ == self.observations@,
    {
        self.observations.as_slice()
    }

    pub fn evidence_sha256(&self) -> (r: &str)
        ensures
            r@ == self.evidence_sha256@,
    {
        self.evidence_sha256.as_str()
    }

    pub fn raw_payloads_persisted(&self) -> (r: u8)
        ensures
            r == self.raw_payloads_persisted,
    {
        self.raw_payloads_persisted
    }

    pub fn execution_authority(&self) -> (r: bool)
        ensures
            r == self.execution_authority,
    {
        self.execution_authority
    }
}

impl RuntimePhaseControlObservationV3 {
    pub fn control(&self) -> (r: RuntimePhaseControlKindV3)
        ensures
            r == self.control,
    {
        self.control
    }

    pub fn selection(&self) -> (r: RuntimePhaseSelectionV3)
        ensures
            r == self.selection,
    {
        self.selection
    }

    pub fn exact_action_checks(&self) -> (r: u32)
        ensures
            r == self.exact_action_checks,
    {
        self.exact_action_checks
    }

    pub fn selected_physical_action_sha256(&self) -> (r: Option<&str>)
        ensures
            match self.selected_physical_action_sha256 {
                Some(s) => (r matches Some(t) && t@ == s@),
                None => r is None,
            },
    {
        match &self.selected_physical_action_sha256 {
            Some(s) => Some(s.as_str()),
            None => None,
        }
    }

    pub fn winner_coherence_fixed(&self) -> (r: Option<i64>)
        ensures
            r == self.winner_coherence_fixed,
    {
        self.winner_coherence_fixed
    }

    pub fn runner_up_coherence_fixed(&self) -> (r: Option<i64>)
        ensures
            r == self.runner_up_coherence_fixed,
    {
        self.runner_up_coherence_fixed
    }
}

} // verus!
