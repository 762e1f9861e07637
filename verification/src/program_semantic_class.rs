//! The semantic class of a program: an identity over its effect law, role
//! schema, protocol modes, executable behavior and verifier contract.
use vstd::prelude::*;
use crate::text::{utf8, str_eq, lemma_utf8_injective};
use crate::json::{
    CanonicalJson, json_str, object, write_str, begin_object, write_member, end_object,
    json_identity, canonical_json_bytes,
};
use crate::digest::{is_nonzero_sha256_text, valid_nonzero_sha256, sha256_hex};

verus! {

pub const PROGRAM_SEMANTIC_CLASS_SCHEMA_V1: &'static str = "nando.program-semantic-class.v1";
pub const PROGRAM_SEMANTIC_CLASS_MAX_BYTES_V1: usize = 4096;

#[derive(Clone, Debug, PartialEq, Eq, PartialOrd, Ord)]
pub struct ProgramSemanticClassIdV1(pub String);

#[derive(Clone, Debug, PartialEq, Eq)]
pub struct ProgramSemanticClassDescriptorV1 {
    pub schema: String,
    pub effect_law_id_sha256: String,
    pub role_schema_root_sha256: String,
    pub protocol_mode_set_root_sha256: String,
    pub executable_behavior_root_sha256: String,
    pub verifier_contract_root_sha256: String,
    pub class_id: ProgramSemanticClassIdV1,
}

#[derive(Clone, Debug, PartialEq, Eq)]
pub struct ProgramSemanticClassInputV1 {
    pub effect_law_id_sha256: String,
    pub role_schema_root_sha256: String,
    pub protocol_mode_set_root_sha256: String,
    pub executable_behavior_root_sha256: String,
    pub verifier_contract_root_sha256: String,
}

#[derive(Clone, Copy, Debug, PartialEq, Eq, Structural)]
pub enum ProgramSemanticClassErrorV1 {
    InvalidRoot,
    InvalidDescriptor,
    BudgetExhausted,
    Serialization,
}

impl ProgramSemanticClassErrorV1 {
    /// What the error says, in words.
    pub fn message(&self) -> (r: &'static str)
        ensures
            r@ == (match self {
                ProgramSemanticClassErrorV1::InvalidRoot => "program semantic class contains an invalid root"@,
                ProgramSemanticClassErrorV1::InvalidDescriptor => "program semantic class descriptor is invalid"@,
                ProgramSemanticClassErrorV1::BudgetExhausted => "program semantic class exceeds its byte budget"@,
                ProgramSemanticClassErrorV1::Serialization => "program semantic class serialization failed"@,
            }),
    {
        match self {
            ProgramSemanticClassErrorV1::InvalidRoot => "program semantic class contains an invalid root",
            ProgramSemanticClassErrorV1::InvalidDescriptor => "program semantic class descriptor is invalid",
            ProgramSemanticClassErrorV1::BudgetExhausted => "program semantic class exceeds its byte budget",
            ProgramSemanticClassErrorV1::Serialization => "program semantic class serialization failed",
        }
    }
}

impl CanonicalJson for ProgramSemanticClassIdV1 {
    open spec fn json(&self) -> Seq<u8> {
        json_str(self.0@)
    }

    fn write_json(&self, out: &mut Vec<u8>) {
        write_str(out, self.0.as_str());
    }
}

impl CanonicalJson for ProgramSemanticClassDescriptorV1 {
    open spec fn json(&self) -> Seq<u8> {
        object(seq![("class_id"@, self.class_id.json())]
            .push(("effect_law_id_sha256"@, self.effect_law_id_sha256.json()))
            .push(("executable_behavior_root_sha256"@, self.executable_behavior_root_sha256.json()))
            .push(("protocol_mode_set_root_sha256"@, self.protocol_mode_set_root_sha256.json()))
            .push(("role_schema_root_sha256"@, self.role_schema_root_sha256.json()))
            .push(("schema"@, self.schema.json()))
            .push(("verifier_contract_root_sha256"@, self.verifier_contract_root_sha256.json())))
    }

    fn write_json(&self, out: &mut Vec<u8>) {
        let st = begin_object(out);
        let st = write_member(out, st, "class_id", &self.class_id);
        let st = write_member(out, st, "effect_law_id_sha256", &self.effect_law_id_sha256);
        let st = write_member(out, st, "executable_behavior_root_sha256", &self.executable_behavior_root_sha256);
        let st = write_member(out, st, "protocol_mode_set_root_sha256", &self.protocol_mode_set_root_sha256);
        let st = write_member(out, st, "role_schema_root_sha256", &self.role_schema_root_sha256);
        let st = write_member(out, st, "schema", &self.schema);
        let st = write_member(out, st, "verifier_contract_root_sha256", &self.verifier_contract_root_sha256);
        end_object(out, st);
    }
}

/// The JSON array that a class identity covers: the schema and the five roots.
pub open spec fn class_tuple_json(
    effect: Seq<char>,
    roles: Seq<char>,
    modes: Seq<char>,
    behavior: Seq<char>,
    verifier: Seq<char>,
) -> Seq<u8> {
    seq![0x5bu8] + json_str(PROGRAM_SEMANTIC_CLASS_SCHEMA_V1@) + seq![0x2cu8] + json_str(effect) + seq![0x2cu8]
        + json_str(roles) + seq![0x2cu8] + json_str(modes) + seq![0x2cu8] + json_str(behavior) + seq![0x2cu8]
        + json_str(verifier) + seq![0x5du8]
}

/// The class identity of the five roots, as lowercase hexadecimal bytes.
pub open spec fn class_identity(
    effect: Seq<char>,
    roles: Seq<char>,
    modes: Seq<char>,
    behavior: Seq<char>,
    verifier: Seq<char>,
) -> Seq<u8> {
    json_identity(class_tuple_json(effect, roles, modes, behavior, verifier))
}

/// All five roots are non-zero SHA-256 digests.
pub open spec fn roots_valid(
    effect: Seq<char>,
    roles: Seq<char>,
    modes: Seq<char>,
    behavior: Seq<char>,
    verifier: Seq<char>,
) -> bool {
    is_nonzero_sha256_text(utf8(effect)) && is_nonzero_sha256_text(utf8(roles))
        && is_nonzero_sha256_text(utf8(modes)) && is_nonzero_sha256_text(utf8(behavior))
        && is_nonzero_sha256_text(utf8(verifier))
}

/// What validating a descriptor gives.
pub open spec fn spec_validate_descriptor(d: ProgramSemanticClassDescriptorV1) -> Result<(), ProgramSemanticClassErrorV1> {
    if d.schema@ != PROGRAM_SEMANTIC_CLASS_SCHEMA_V1@ {
        Err(ProgramSemanticClassErrorV1::InvalidDescriptor)
    } else if !roots_valid(d.effect_law_id_sha256@, d.role_schema_root_sha256@, d.protocol_mode_set_root_sha256@,
        d.executable_behavior_root_sha256@, d.verifier_contract_root_sha256@) {
        Err(ProgramSemanticClassErrorV1::InvalidRoot)
    } else if utf8(d.class_id.0@) != class_identity(d.effect_law_id_sha256@, d.role_schema_root_sha256@,
        d.protocol_mode_set_root_sha256@, d.executable_behavior_root_sha256@, d.verifier_contract_root_sha256@) {
        Err(ProgramSemanticClassErrorV1::InvalidDescriptor)
    } else {
        Ok(())
    }
}

fn validate_roots(effect: &str, roles: &str, modes: &str, behavior: &str, verifier: &str) -> (r: bool)
    ensures
        r == roots_valid(effect@, roles@, modes@, behavior@, verifier@),
{
    valid_nonzero_sha256(effect) && valid_nonzero_sha256(roles) && valid_nonzero_sha256(modes)
        && valid_nonzero_sha256(behavior) && valid_nonzero_sha256(verifier)
}

fn class_digest(effect: &str, roles: &str, modes: &str, behavior: &str, verifier: &str) -> (s: String)
    ensures
        utf8(s@) == class_identity(effect@, roles@, modes@, behavior@, verifier@),
{
    let mut out: Vec<u8> = Vec::new();
    out.push(0x5b);
    write_str(&mut out, PROGRAM_SEMANTIC_CLASS_SCHEMA_V1);
    out.push(0x2c);
    write_str(&mut out, effect);
    out.push(0x2c);
    write_str(&mut out, roles);
    out.push(0x2c);
    write_str(&mut out, modes);
    out.push(0x2c);
    write_str(&mut out, behavior);
    out.push(0x2c);
    write_str(&mut out, verifier);
    out.push(0x5d);
    assert(out@ =~= class_tuple_json(effect@, roles@, modes@, behavior@, verifier@));
    sha256_hex(out.as_slice())
}

/// Seals the semantic class of five roots: refuses an invalid root and
/// otherwise names the class by the digest of the roots.
pub fn seal_program_semantic_class_v1(
    input: ProgramSemanticClassInputV1,
) -> (r: Result<ProgramSemanticClassDescriptorV1, ProgramSemanticClassErrorV1>)
    ensures
        !roots_valid(input.effect_law_id_sha256@, input.role_schema_root_sha256@, input.protocol_mode_set_root_sha256@,
            input.executable_behavior_root_sha256@, input.verifier_contract_root_sha256@)
            ==> r == Err::<ProgramSemanticClassDescriptorV1, ProgramSemanticClassErrorV1>(ProgramSemanticClassErrorV1::InvalidRoot),
        roots_valid(input.effect_law_id_sha256@, input.role_schema_root_sha256@, input.protocol_mode_set_root_sha256@,
            input.executable_behavior_root_sha256@, input.verifier_contract_root_sha256@)
            ==> (r matches Ok(d)
                && d.schema@ == PROGRAM_SEMANTIC_CLASS_SCHEMA_V1@
                && d.effect_law_id_sha256 == input.effect_law_id_sha256
                && d.role_schema_root_sha256 == input.role_schema_root_sha256
                && d.protocol_mode_set_root_sha256 == input.protocol_mode_set_root_sha256
                && d.executable_behavior_root_sha256 == input.executable_behavior_root_sha256
                && d.verifier_contract_root_sha256 == input.verifier_contract_root_sha256
                && utf8(d.class_id.0@) == class_identity(input.effect_law_id_sha256@, input.role_schema_root_sha256@,
                    input.protocol_mode_set_root_sha256@, input.executable_behavior_root_sha256@,
                    input.verifier_contract_root_sha256@)
                && spec_validate_descriptor(d) is Ok),
{
    if !validate_roots(input.effect_law_id_sha256.as_str(), input.role_schema_root_sha256.as_str(),
        input.protocol_mode_set_root_sha256.as_str(), input.executable_behavior_root_sha256.as_str(),
        input.verifier_contract_root_sha256.as_str()) {
        return Err(ProgramSemanticClassErrorV1::InvalidRoot);
    }
    let class_id = ProgramSemanticClassIdV1(class_digest(input.effect_law_id_sha256.as_str(),
        input.role_schema_root_sha256.as_str(), input.protocol_mode_set_root_sha256.as_str(),
        input.executable_behavior_root_sha256.as_str(), input.verifier_contract_root_sha256.as_str()));
    let descriptor = ProgramSemanticClassDescriptorV1 {
        schema: PROGRAM_SEMANTIC_CLASS_SCHEMA_V1.to_owned(),
        effect_law_id_sha256: input.effect_law_id_sha256,
        role_schema_root_sha256: input.role_schema_root_sha256,
        protocol_mode_set_root_sha256: input.protocol_mode_set_root_sha256,
        executable_behavior_root_sha256: input.executable_behavior_root_sha256,
        verifier_contract_root_sha256: input.verifier_contract_root_sha256,
        class_id,
    };
    match descriptor.validate() {
        Ok(_) => Ok(descriptor),
        Err(e) => Err(e),
    }
}

impl ProgramSemanticClassDescriptorV1 {
    /// The canonical bytes of a valid descriptor within its byte budget.
    pub fn canonical_bytes(&self) -> (r: Result<Vec<u8>, ProgramSemanticClassErrorV1>)
        ensures
            spec_validate_descriptor(*self) matches Err(e) ==> r == Err::<Vec<u8>, ProgramSemanticClassErrorV1>(e),
            spec_validate_descriptor(*self) is Ok && self.json().len() > PROGRAM_SEMANTIC_CLASS_MAX_BYTES_V1
                ==> r == Err::<Vec<u8>, ProgramSemanticClassErrorV1>(ProgramSemanticClassErrorV1::BudgetExhausted),
            spec_validate_descriptor(*self) is Ok && self.json().len() <= PROGRAM_SEMANTIC_CLASS_MAX_BYTES_V1
                ==> (r matches Ok(b) && b@ == self.json()),
    {
        match self.validate() {
            Err(e) => { return Err(e); },
            Ok(_) => {},
        }
        let bytes = canonical_json_bytes(self);
        if bytes.len() > PROGRAM_SEMANTIC_CLASS_MAX_BYTES_V1 {
            return Err(ProgramSemanticClassErrorV1::BudgetExhausted);
        }
        Ok(bytes)
    }

    pub fn validate(&self) -> (r: Result<(), ProgramSemanticClassErrorV1>)
        ensures
            r == spec_validate_descriptor(*self),
    {
        if !str_eq(self.schema.as_str(), PROGRAM_SEMANTIC_CLASS_SCHEMA_V1) {
            return Err(ProgramSemanticClassErrorV1::InvalidDescriptor);
        }
        if !validate_roots(self.effect_law_id_sha256.as_str(), self.role_schema_root_sha256.as_str(),
            self.protocol_mode_set_root_sha256.as_str(), self.executable_behavior_root_sha256.as_str(),
            self.verifier_contract_root_sha256.as_str()) {
            return Err(ProgramSemanticClassErrorV1::InvalidRoot);
        }
        let expected = class_digest(self.effect_law_id_sha256.as_str(), self.role_schema_root_sha256.as_str(),
            self.protocol_mode_set_root_sha256.as_str(), self.executable_behavior_root_sha256.as_str(),
            self.verifier_contract_root_sha256.as_str());
        proof {
            lemma_utf8_injective(expected@, self.class_id.0@);
        }
        if !str_eq(self.class_id.0.as_str(), expected.as_str()) {
            return Err(ProgramSemanticClassErrorV1::InvalidDescriptor);
        }
        Ok(())
    }

    pub fn class_id(&self) -> (r: &ProgramSemanticClassIdV1)
        ensures
            *r == self.class_id,
    {
        &self.class_id
    }

    pub fn effect_law_id_sha256(&self) -> (r: &str)
        ensures
            r@ == self.effect_law_id_sha256@,
    {
        self.effect_law_id_sha256.as_str()
    }

    pub fn role_schema_root_sha256(&self) -> (r: &str)
        ensures
            r@ == self.role_schema_root_sha256@,
    {
        self.role_schema_root_sha256.as_str()
    }

    pub fn protocol_mode_set_root_sha256(&self) -> (r: &str)
        ensures
            r@ == self.protocol_mode_set_root_sha256@,
    {
        self.protocol_mode_set_root_sha256.as_str()
    }

    pub fn executable_behavior_root_sha256(&self) -> (r: &str)
        ensures
            r@ == self.executable_behavior_root_sha256@,
    {
        self.executable_behavior_root_sha256.as_str()
    }

    pub fn verifier_contract_root_sha256(&self) -> (r: &str)
        ensures
            r@ == self.verifier_contract_root_sha256@,
    {
        self.verifier_contract_root_sha256.as_str()
    }
}

impl ProgramSemanticClassIdV1 {
    pub fn as_str(&self) -> (r: &str)
        ensures
            r@ == self.0@,
    {
        self.0.as_str()
    }
}

} // verus!
