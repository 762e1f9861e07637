//! Executable protocol modes: the facet payload that a protocol mode
//! compiles to, the executable mode that binds it to its source, and the
//! artifact that gathers the modes of a mode set with its effect law.
use vstd::prelude::*;
use crate::binding::BindingValueTypeV1;
use crate::text::{utf8, str_eq, lemma_utf8_injective, bytes_eq};
use crate::json::{
    CanonicalJson, json_str, write_str, object, begin_object, write_member, write_member_str, end_object,
    json_identity, canonical_json_sha256, tuple, begin_tuple, write_item, write_item_str, end_tuple,
};
use crate::digest::sha256_hex;
use crate::structural_walk::{
    JsonValue, JsonMember, JsonNumber, parses_u64, digits_value, parse_u64_text,
};
use crate::digest::{is_nonzero_sha256_text, valid_nonzero_sha256};
use crate::scan::{lex_lt, bytes_lt};
use crate::effect_law::CANONICAL_EFFECT_LAW_SCHEMA_V3;
use crate::protocol_mode::{
    ProtocolModeSetV2, BindingProtocolCompileVerdictV2, spec_validate_set, validate_protocol_mode_set_v2,
};
use crate::protocol_mode::{
    ProtocolModeV2, ProtocolSourceRoleV2, ProtocolArgumentRoleV2, value_type_rank, value_type_rank_exec,
};

verus! {

pub const PROTOCOL_FACET_PAYLOAD_SCHEMA_V3: &'static str = "nando.protocol-facet-payload.v3.f5a";
pub const EXECUTABLE_PROTOCOL_MODE_ARTIFACT_SCHEMA_V3: &'static str = "nando.executable-protocol-mode-artifact.v3.f5a";
pub const FACET_COMPILER_VERSION_V3: u16 = 1;
pub const MAX_EXECUTABLE_MODES_V3: usize = 32;

#[derive(Clone, Copy, Debug, PartialEq, Eq, Structural)]
pub enum ProtocolCapabilityKindV3 {
    Function,
    CustomTool,
}

#[derive(Clone, Copy, Debug, PartialEq, Eq, Structural)]
pub enum ProtocolDefaultSemanticsV3 {
    NoImplicitDefaults,
}

#[derive(Clone, Copy, Debug, PartialEq, Eq, Structural)]
pub enum ProtocolPhysicalSymbolSourceV3 {
    CurrentAdvertisedCapabilitySurface,
}

#[derive(Clone, Copy, Debug, PartialEq, Eq, Structural)]
pub struct ProtocolCapabilityArgumentV3 {
    pub argument_ordinal: u16,
    pub source_role_id: u16,
    pub value_type: BindingValueTypeV1,
}

#[derive(Clone, Debug, PartialEq, Eq)]
pub struct ProtocolFacetPayloadV3 {
    pub schema: String,
    pub compiler_version: u16,
    pub source_protocol_facet_root_sha256: String,
    pub capability_kind: ProtocolCapabilityKindV3,
    pub physical_symbol_source: ProtocolPhysicalSymbolSourceV3,
    pub arguments: Vec<ProtocolCapabilityArgumentV3>,
    pub default_semantics: ProtocolDefaultSemanticsV3,
    pub effect_law_id_sha256: String,
    pub relation_identity_sha256: String,
    pub effect_invariant_root_sha256: String,
    pub action_class_root_sha256: String,
    pub source_role_schema_root_sha256: String,
    pub selector_program_root_sha256: String,
    pub observed_emitted_types_root_sha256: String,
    pub legacy_capability_contract_root_sha256: String,
    pub argument_role_schema_root_sha256: String,
    pub constant_contract_root_sha256: String,
    pub structural_guard_root_sha256: String,
    pub temporal_cardinality_contract_root_sha256: String,
    pub payload_root_sha256: String,
}

#[derive(Clone, Debug, PartialEq, Eq)]
pub struct ExecutableProtocolModeV3 {
    pub source_mode_id_sha256: String,
    pub source_physical_program_set_root_sha256: String,
    pub payload: ProtocolFacetPayloadV3,
    pub executable_mode_root_sha256: String,
}

#[derive(Debug, PartialEq, Eq)]
pub struct ExecutableProtocolModeArtifactV3 {
    pub schema: String,
    pub compiler_version: u16,
    pub artifact_sha256: String,
    pub source_mode_set: ProtocolModeSetV2,
    pub effect_law_payload: JsonValue,
    pub effect_law_payload_root_sha256: String,
    pub modes: Vec<ExecutableProtocolModeV3>,
    pub production_admissible: bool,
    pub execution_authority: bool,
}

#[derive(Clone, Copy, Debug, PartialEq, Eq, Structural)]
pub enum ExecutableProtocolModeErrorV3 {
    InvalidModeSet,
    InvalidEffectLaw,
    MissingFacetEvidence,
    UnexpectedFacetEvidence,
    InvalidFacetEvidence,
    UnsupportedFacetShape,
    UncommittedPhysicalConstant,
    HashOnlyConstantCommitment,
    InvalidArtifact,
    Serialization,
}

// ---------------------------------------------------------------- canonical JSON

impl CanonicalJson for ProtocolCapabilityKindV3 {
    open spec fn json(&self) -> Seq<u8> {
        match self {
            ProtocolCapabilityKindV3::Function => json_str("function"@),
            ProtocolCapabilityKindV3::CustomTool => json_str("custom_tool"@),
        }
    }

    fn write_json(&self, out: &mut Vec<u8>) {
        match self {
            ProtocolCapabilityKindV3::Function => write_str(out, "function"),
            ProtocolCapabilityKindV3::CustomTool => write_str(out, "custom_tool"),
        }
    }
}

impl CanonicalJson for ProtocolDefaultSemanticsV3 {
    open spec fn json(&self) -> Seq<u8> {
        json_str("no_implicit_defaults"@)
    }

    fn write_json(&self, out: &mut Vec<u8>) {
        write_str(out, "no_implicit_defaults");
    }
}

impl CanonicalJson for ProtocolPhysicalSymbolSourceV3 {
    open spec fn json(&self) -> Seq<u8> {
        json_str("current_advertised_capability_surface"@)
    }

    fn write_json(&self, out: &mut Vec<u8>) {
        write_str(out, "current_advertised_capability_surface");
    }
}

impl CanonicalJson for ProtocolCapabilityArgumentV3 {
    open spec fn json(&self) -> Seq<u8> {
        object(seq![("argument_ordinal"@, self.argument_ordinal.json())]
            .push(("source_role_id"@, self.source_role_id.json()))
            .push(("value_type"@, self.value_type.json())))
    }

    fn write_json(&self, out: &mut Vec<u8>) {
        let st = begin_object(out);
        let st = write_member(out, st, "argument_ordinal", &self.argument_ordinal);
        let st = write_member(out, st, "source_role_id", &self.source_role_id);
        let st = write_member(out, st, "value_type", &self.value_type);
        end_object(out, st);
    }
}

/// The members of a facet payload before its own root, in key order, with
/// the root (when given) in its place.
pub open spec fn payload_members(p: ProtocolFacetPayloadV3, root: Option<Seq<char>>) -> Seq<(Seq<char>, Seq<u8>)> {
    let head = seq![("action_class_root_sha256"@, json_str(p.action_class_root_sha256@))]
        .push(("argument_role_schema_root_sha256"@, json_str(p.argument_role_schema_root_sha256@)))
        .push(("arguments"@, p.arguments.json()))
        .push(("capability_kind"@, p.capability_kind.json()))
        .push(("compiler_version"@, p.compiler_version.json()))
        .push(("constant_contract_root_sha256"@, json_str(p.constant_contract_root_sha256@)))
        .push(("default_semantics"@, p.default_semantics.json()))
        .push(("effect_invariant_root_sha256"@, json_str(p.effect_invariant_root_sha256@)))
        .push(("effect_law_id_sha256"@, json_str(p.effect_law_id_sha256@)))
        .push(("legacy_capability_contract_root_sha256"@, json_str(p.legacy_capability_contract_root_sha256@)))
        .push(("observed_emitted_types_root_sha256"@, json_str(p.observed_emitted_types_root_sha256@)));
    let with_root = match root {
        Some(r) => head.push(("payload_root_sha256"@, json_str(r))),
        None => head,
    };
    with_root
        .push(("physical_symbol_source"@, p.physical_symbol_source.json()))
        .push(("relation_identity_sha256"@, json_str(p.relation_identity_sha256@)))
        .push(("schema"@, json_str(p.schema@)))
        .push(("selector_program_root_sha256"@, json_str(p.selector_program_root_sha256@)))
        .push(("source_protocol_facet_root_sha256"@, json_str(p.source_protocol_facet_root_sha256@)))
        .push(("source_role_schema_root_sha256"@, json_str(p.source_role_schema_root_sha256@)))
        .push(("structural_guard_root_sha256"@, json_str(p.structural_guard_root_sha256@)))
        .push(("temporal_cardinality_contract_root_sha256"@, json_str(p.temporal_cardinality_contract_root_sha256@)))
}

fn write_payload(out: &mut Vec<u8>, p: &ProtocolFacetPayloadV3, with_root: bool)
    ensures
        final(out)@ == old(out)@ + object(payload_members(*p, if with_root { Some(p.payload_root_sha256@) } else { None })),
{
    let st = begin_object(out);
    let st = write_member_str(out, st, "action_class_root_sha256", p.action_class_root_sha256.as_str());
    let st = write_member_str(out, st, "argument_role_schema_root_sha256", p.argument_role_schema_root_sha256.as_str());
    let st = write_member(out, st, "arguments", &p.arguments);
    let st = write_member(out, st, "capability_kind", &p.capability_kind);
    let st = write_member(out, st, "compiler_version", &p.compiler_version);
    let st = write_member_str(out, st, "constant_contract_root_sha256", p.constant_contract_root_sha256.as_str());
    let st = write_member(out, st, "default_semantics", &p.default_semantics);
    let st = write_member_str(out, st, "effect_invariant_root_sha256", p.effect_invariant_root_sha256.as_str());
    let st = write_member_str(out, st, "effect_law_id_sha256", p.effect_law_id_sha256.as_str());
    let st = write_member_str(out, st, "legacy_capability_contract_root_sha256", p.legacy_capability_contract_root_sha256.as_str());
    let st = write_member_str(out, st, "observed_emitted_types_root_sha256", p.observed_emitted_types_root_sha256.as_str());
    let st = if with_root {
        write_member_str(out, st, "payload_root_sha256", p.payload_root_sha256.as_str())
    } else {
        st
    };
    let st = write_member(out, st, "physical_symbol_source", &p.physical_symbol_source);
    let st = write_member_str(out, st, "relation_identity_sha256", p.relation_identity_sha256.as_str());
    let st = write_member_str(out, st, "schema", p.schema.as_str());
    let st = write_member_str(out, st, "selector_program_root_sha256", p.selector_program_root_sha256.as_str());
    let st = write_member_str(out, st, "source_protocol_facet_root_sha256", p.source_protocol_facet_root_sha256.as_str());
    let st = write_member_str(out, st, "source_role_schema_root_sha256", p.source_role_schema_root_sha256.as_str());
    let st = write_member_str(out, st, "structural_guard_root_sha256", p.structural_guard_root_sha256.as_str());
    let st = write_member_str(out, st, "temporal_cardinality_contract_root_sha256", p.temporal_cardinality_contract_root_sha256.as_str());
    end_object(out, st);
}

impl CanonicalJson for ProtocolFacetPayloadV3 {
    open spec fn json(&self) -> Seq<u8> {
        object(payload_members(*self, Some(self.payload_root_sha256@)))
    }

    fn write_json(&self, out: &mut Vec<u8>) {
        write_payload(out, self, true);
    }
}

impl CanonicalJson for ExecutableProtocolModeV3 {
    open spec fn json(&self) -> Seq<u8> {
        object(seq![("executable_mode_root_sha256"@, json_str(self.executable_mode_root_sha256@))]
            .push(("payload"@, self.payload.json()))
            .push(("source_mode_id_sha256"@, json_str(self.source_mode_id_sha256@)))
            .push(("source_physical_program_set_root_sha256"@, json_str(self.source_physical_program_set_root_sha256@))))
    }

    fn write_json(&self, out: &mut Vec<u8>) {
        let st = begin_object(out);
        let st = write_member_str(out, st, "executable_mode_root_sha256", self.executable_mode_root_sha256.as_str());
        let st = write_member(out, st, "payload", &self.payload);
        let st = write_member_str(out, st, "source_mode_id_sha256", self.source_mode_id_sha256.as_str());
        let st = write_member_str(out, st, "source_physical_program_set_root_sha256", self.source_physical_program_set_root_sha256.as_str());
        end_object(out, st);
    }
}

/// The root of a facet payload: the digest of its JSON without the root.
pub open spec fn facet_payload_root(p: ProtocolFacetPayloadV3) -> Seq<u8> {
    json_identity(object(payload_members(p, None)))
}

fn facet_payload_digest(p: &ProtocolFacetPayloadV3) -> (r: String)
    ensures
        utf8(r@) == facet_payload_root(*p),
{
    let mut out: Vec<u8> = Vec::new();
    write_payload(&mut out, p, false);
    assert(out@ =~= object(payload_members(*p, None)));
    sha256_hex(out.as_slice())
}

/// The root of an executable mode: the digest of the artifact schema, the
/// compiler version and the three roots it binds, as a JSON tuple.
pub open spec fn executable_mode_root(mode_id: Seq<char>, program_set_root: Seq<char>, payload_root: Seq<char>) -> Seq<u8> {
    json_identity(tuple(seq![json_str(EXECUTABLE_PROTOCOL_MODE_ARTIFACT_SCHEMA_V3@)]
        .push(FACET_COMPILER_VERSION_V3.json())
        .push(json_str(mode_id))
        .push(json_str(program_set_root))
        .push(json_str(payload_root))))
}

fn executable_mode_digest(mode_id: &str, program_set_root: &str, payload_root: &str) -> (r: String)
    ensures
        utf8(r@) == executable_mode_root(mode_id@, program_set_root@, payload_root@),
{
    let mut out: Vec<u8> = Vec::new();
    let st = begin_tuple(&mut out);
    let st = write_item_str(&mut out, st, EXECUTABLE_PROTOCOL_MODE_ARTIFACT_SCHEMA_V3);
    let version: u16 = FACET_COMPILER_VERSION_V3;
    let st = write_item(&mut out, st, &version);
    let st = write_item_str(&mut out, st, mode_id);
    let st = write_item_str(&mut out, st, program_set_root);
    let st = write_item_str(&mut out, st, payload_root);
    end_tuple(&mut out, st);
    sha256_hex(out.as_slice())
}

/// The root of a mode's physical programs: the digest of their ids as a JSON array.
pub open spec fn program_set_root(m: ProtocolModeV2) -> Seq<u8> {
    json_identity(m.program.capability_contract.physical_program_ids_sha256.json())
}

// ---------------------------------------------------------------- arguments

/// The value type of a source role; a later role with the same id wins.
pub open spec fn source_value_type(roles: Seq<ProtocolSourceRoleV2>, id: u16) -> Option<BindingValueTypeV1>
    decreases roles.len(),
{
    if roles.len() == 0 {
        None
    } else if roles.last().role_id == id {
        Some(roles.last().value_type)
    } else {
        source_value_type(roles.drop_last(), id)
    }
}

/// Every argument role names a source role.
pub open spec fn arguments_resolve(m: ProtocolModeV2) -> bool {
    forall|k: int| 0 <= k < m.program.argument_role_schema.roles@.len()
        ==> (#[trigger] source_value_type(m.program.source_role_schema.roles@,
            m.program.argument_role_schema.roles@[k].source_role_id)) is Some
}

/// The argument an argument role becomes.
pub open spec fn argument_of(m: ProtocolModeV2, a: ProtocolArgumentRoleV2) -> ProtocolCapabilityArgumentV3 {
    ProtocolCapabilityArgumentV3 {
        argument_ordinal: a.argument_ordinal,
        source_role_id: a.source_role_id,
        value_type: match source_value_type(m.program.source_role_schema.roles@, a.source_role_id) {
            Some(t) => t,
            None => BindingValueTypeV1::String,
        },
    }
}

/// Arguments order by ordinal, source role, then value type.
pub open spec fn argument_lt(a: ProtocolCapabilityArgumentV3, b: ProtocolCapabilityArgumentV3) -> bool {
    if a.argument_ordinal != b.argument_ordinal {
        a.argument_ordinal < b.argument_ordinal
    } else if a.source_role_id != b.source_role_id {
        a.source_role_id < b.source_role_id
    } else {
        value_type_rank(a.value_type) < value_type_rank(b.value_type)
    }
}

fn argument_less(a: &ProtocolCapabilityArgumentV3, b: &ProtocolCapabilityArgumentV3) -> (r: bool)
    ensures
        r == argument_lt(*a, *b),
{
    if a.argument_ordinal != b.argument_ordinal {
        a.argument_ordinal < b.argument_ordinal
    } else if a.source_role_id != b.source_role_id {
        a.source_role_id < b.source_role_id
    } else {
        value_type_rank_exec(a.value_type) < value_type_rank_exec(b.value_type)
    }
}

pub open spec fn insert_argument(s: Seq<ProtocolCapabilityArgumentV3>, x: ProtocolCapabilityArgumentV3) -> Seq<ProtocolCapabilityArgumentV3>
    decreases s.len(),
{
    if s.len() == 0 {
        seq![x]
    } else if argument_lt(s[0], x) {
        seq![s[0]] + insert_argument(s.subrange(1, s.len() as int), x)
    } else {
        seq![x] + s
    }
}

/// The arguments in order.
pub open spec fn sort_arguments(s: Seq<ProtocolCapabilityArgumentV3>) -> Seq<ProtocolCapabilityArgumentV3>
    decreases s.len(),
{
    if s.len() == 0 { s } else { insert_argument(sort_arguments(s.drop_last()), s.last()) }
}

proof fn lemma_insert_argument_at(s: Seq<ProtocolCapabilityArgumentV3>, x: ProtocolCapabilityArgumentV3, p: int)
    requires
        0 <= p <= s.len(),
        forall|k: int| 0 <= k < p ==> argument_lt(#[trigger] s[k], x),
        p == s.len() || !argument_lt(s[p], x),
    ensures
        insert_argument(s, x) == s.insert(p, x),
    decreases s.len(),
{
    if s.len() == 0 {
        assert(s.insert(p, x) =~= seq![x]);
    } else if p == 0 {
        assert(s.insert(0, x) =~= seq![x] + s);
    } else {
        let t = s.subrange(1, s.len() as int);
        assert forall|k: int| 0 <= k < p - 1 implies argument_lt(#[trigger] t[k], x) by {
            assert(t[k] == s[k + 1]);
        }
        if p - 1 < t.len() {
            assert(t[p - 1] == s[p]);
        }
        lemma_insert_argument_at(t, x, p - 1);
        assert(s.insert(p, x) =~= seq![s[0]] + t.insert(p - 1, x));
    }
}

/// The arguments of a mode, one per argument role, in order.
pub open spec fn mode_arguments(m: ProtocolModeV2) -> Seq<ProtocolCapabilityArgumentV3> {
    sort_arguments(m.program.argument_role_schema.roles@.map_values(|a: ProtocolArgumentRoleV2| argument_of(m, a)))
}

/// Two neighbours in order share an ordinal or a source role.
pub open spec fn arguments_clash(s: Seq<ProtocolCapabilityArgumentV3>) -> bool {
    exists|i: int| 0 <= i && i + 1 < s.len() && #[trigger] clash_at(s, i)
}

/// The argument at `i` and the next share an ordinal or a source role.
pub open spec fn clash_at(s: Seq<ProtocolCapabilityArgumentV3>, i: int) -> bool {
    s[i].argument_ordinal == s[i + 1].argument_ordinal || s[i].source_role_id == s[i + 1].source_role_id
}

/// A mode has a facet shape when each argument names a source role, there
/// is an argument, and no two neighbouring arguments clash.
pub open spec fn facet_shape_ok(m: ProtocolModeV2) -> bool {
    &&& arguments_resolve(m)
    &&& m.program.argument_role_schema.roles@.len() > 0
    &&& !arguments_clash(mode_arguments(m))
}

fn source_value_type_exec(roles: &Vec<ProtocolSourceRoleV2>, id: u16) -> (r: Option<BindingValueTypeV1>)
    ensures
        r == source_value_type(roles@, id),
{
    let mut k: usize = roles.len();
    assert(roles@.take(roles@.len() as int) =~= roles@);
    while k > 0
        invariant
            k <= roles@.len(),
            source_value_type(roles@, id) == source_value_type(roles@.take(k as int), id),
        decreases k,
    {
        let ghost t = roles@.take(k as int);
        assert(t.drop_last() =~= roles@.take(k - 1));
        assert(t.last() == roles@[k - 1]);
        if roles[k - 1].role_id == id {
            return Some(roles[k - 1].value_type);
        }
        k = k - 1;
    }
    assert(roles@.take(0) =~= Seq::<ProtocolSourceRoleV2>::empty());
    None
}

/// The arguments of a mode's facet: each argument role with the value type
/// of the source role it names, in order; refused when an argument names no
/// source role, when there is none, or when two neighbours share an ordinal
/// or a source role.
pub fn expected_protocol_arguments_v3(mode: &ProtocolModeV2) -> (r: Result<Vec<ProtocolCapabilityArgumentV3>, ExecutableProtocolModeErrorV3>)
    ensures
        facet_shape_ok(*mode) ==> (r matches Ok(v) && v@ == mode_arguments(*mode)),
        !facet_shape_ok(*mode) ==> r == Err::<Vec<ProtocolCapabilityArgumentV3>, ExecutableProtocolModeErrorV3>(
            ExecutableProtocolModeErrorV3::UnsupportedFacetShape),
{
    let sources = &mode.program.source_role_schema.roles;
    let roles = &mode.program.argument_role_schema.roles;
    let ghost unsorted = roles@.map_values(|a: ProtocolArgumentRoleV2| argument_of(*mode, a));
    let mut out: Vec<ProtocolCapabilityArgumentV3> = Vec::new();
    let mut i: usize = 0;
    while i < roles.len()
        invariant
            i <= roles@.len(),
            sources == &mode.program.source_role_schema.roles,
            roles == &mode.program.argument_role_schema.roles,
            unsorted == roles@.map_values(|a: ProtocolArgumentRoleV2| argument_of(*mode, a)),
            forall|k: int| 0 <= k < i ==> (#[trigger] source_value_type(sources@, roles@[k].source_role_id)) is Some,
            out@ == sort_arguments(unsorted.take(i as int)),
        decreases roles@.len() - i,
    {
        let a = &roles[i];
        let t = match source_value_type_exec(sources, a.source_role_id) {
            Some(t) => t,
            None => {
                proof {
                    assert(!arguments_resolve(*mode)) by {
                        assert(source_value_type(sources@, roles@[i as int].source_role_id) is None);
                    }
                }
                return Err(ExecutableProtocolModeErrorV3::UnsupportedFacetShape);
            },
        };
        let x = ProtocolCapabilityArgumentV3 { argument_ordinal: a.argument_ordinal, source_role_id: a.source_role_id, value_type: t };
        assert(x == unsorted[i as int]);
        let mut p: usize = 0;
        while p < out.len() && argument_less(&out[p], &x)
            invariant
                p <= out@.len(),
                forall|k: int| 0 <= k < p ==> argument_lt(#[trigger] out@[k], x),
            decreases out@.len() - p,
        {
            p = p + 1;
        }
        proof {
            lemma_insert_argument_at(out@, x, p as int);
            assert(unsorted.take(i + 1).drop_last() =~= unsorted.take(i as int));
        }
        out.insert(p, x);
        i = i + 1;
    }
    assert(unsorted.take(roles@.len() as int) =~= unsorted);
    assert(arguments_resolve(*mode));
    if out.len() == 0 {
        assert(roles@.len() == 0) by {
            lemma_sort_arguments_len(unsorted);
        }
        assert(!facet_shape_ok(*mode));
        return Err(ExecutableProtocolModeErrorV3::UnsupportedFacetShape);
    }
    proof {
        lemma_sort_arguments_len(unsorted);
    }
    assert(out@ == mode_arguments(*mode));
    let mut j: usize = 0;
    let last = out.len() - 1;
    while j < last
        invariant
            out@.len() >= 1,
            last == out@.len() - 1,
            j <= last,
            out@ == mode_arguments(*mode),
            arguments_resolve(*mode),
            mode.program.argument_role_schema.roles@.len() > 0,
            forall|k: int| 0 <= k < j ==> !#[trigger] clash_at(out@, k),
        decreases out@.len() - j,
    {
        if out[j].argument_ordinal == out[j + 1].argument_ordinal || out[j].source_role_id == out[j + 1].source_role_id {
            assert(clash_at(out@, j as int));
            assert(arguments_clash(out@));
            return Err(ExecutableProtocolModeErrorV3::UnsupportedFacetShape);
        }
        j = j + 1;
    }
    assert(j == last);
    assert forall|i: int| 0 <= i && i + 1 < out@.len() implies !#[trigger] clash_at(out@, i) by {
        assert(i < j);
    }
    assert(!arguments_clash(out@));
    Ok(out)
}

proof fn lemma_sort_arguments_len(s: Seq<ProtocolCapabilityArgumentV3>)
    ensures
        sort_arguments(s).len() == s.len(),
    decreases s.len(),
{
    if s.len() > 0 {
        lemma_sort_arguments_len(s.drop_last());
        lemma_insert_argument_len(sort_arguments(s.drop_last()), s.last());
    }
}

proof fn lemma_insert_argument_len(s: Seq<ProtocolCapabilityArgumentV3>, x: ProtocolCapabilityArgumentV3)
    ensures
        insert_argument(s, x).len() == s.len() + 1,
    decreases s.len(),
{
    if s.len() > 0 && argument_lt(s[0], x) {
        lemma_insert_argument_len(s.subrange(1, s.len() as int), x);
    }
}

// ---------------------------------------------------------------- facet payloads

/// The roots that a facet payload copies from its mode, and its own fixed fields.
pub open spec fn payload_fields_match(p: ProtocolFacetPayloadV3, m: ProtocolModeV2) -> bool {
    &&& p.schema@ == PROTOCOL_FACET_PAYLOAD_SCHEMA_V3@
    &&& p.compiler_version == FACET_COMPILER_VERSION_V3
    &&& p.source_protocol_facet_root_sha256@ == m.protocol_facet_root_sha256@
    &&& p.effect_law_id_sha256@ == m.effect_law_id_sha256@
    &&& p.relation_identity_sha256@ == m.relation_identity_sha256@
    &&& p.effect_invariant_root_sha256@ == m.effect_invariant_root_sha256@
    &&& p.action_class_root_sha256@ == m.action_class_root_sha256@
    &&& p.source_role_schema_root_sha256@ == m.source_role_schema_root_sha256@
    &&& p.selector_program_root_sha256@ == m.selector_program_root_sha256@
    &&& p.observed_emitted_types_root_sha256@ == m.observed_emitted_types_root_sha256@
    &&& p.legacy_capability_contract_root_sha256@ == m.capability_protocol_root_sha256@
    &&& p.argument_role_schema_root_sha256@ == m.argument_role_schema_root_sha256@
    &&& p.constant_contract_root_sha256@ == m.constant_contract_root_sha256@
    &&& p.structural_guard_root_sha256@ == m.structural_guard_root_sha256@
    &&& p.temporal_cardinality_contract_root_sha256@ == m.temporal_cardinality_contract_root_sha256@
    &&& utf8(p.payload_root_sha256@) == facet_payload_root(p)
}

/// Why a facet payload does not belong to a mode, if it does not.
pub open spec fn facet_payload_error(p: ProtocolFacetPayloadV3, m: ProtocolModeV2) -> Option<ExecutableProtocolModeErrorV3> {
    if !payload_fields_match(p, m) {
        Some(ExecutableProtocolModeErrorV3::InvalidArtifact)
    } else if !facet_shape_ok(m) {
        Some(ExecutableProtocolModeErrorV3::UnsupportedFacetShape)
    } else if p.arguments@ != mode_arguments(m) {
        Some(ExecutableProtocolModeErrorV3::InvalidArtifact)
    } else {
        None
    }
}

pub open spec fn spec_validate_facet(p: ProtocolFacetPayloadV3, m: ProtocolModeV2) -> Result<(), ExecutableProtocolModeErrorV3> {
    match facet_payload_error(p, m) {
        Some(e) => Err(e),
        None => Ok(()),
    }
}

fn same_arguments(a: &Vec<ProtocolCapabilityArgumentV3>, b: &Vec<ProtocolCapabilityArgumentV3>) -> (r: bool)
    ensures
        r == (a@ == b@),
{
    if a.len() != b.len() {
        return false;
    }
    let mut i: usize = 0;
    while i < a.len()
        invariant
            i <= a@.len(),
            a@.len() == b@.len(),
            forall|k: int| 0 <= k < i ==> a@[k] == b@[k],
        decreases a@.len() - i,
    {
        if a[i] != b[i] {
            return false;
        }
        i = i + 1;
    }
    assert(a@ =~= b@);
    true
}

fn payload_fields_match_exec(p: &ProtocolFacetPayloadV3, m: &ProtocolModeV2) -> (r: bool)
    ensures
        r == payload_fields_match(*p, *m),
{
    let root = facet_payload_digest(p);
    proof {
        crate::text::lemma_utf8_injective(p.payload_root_sha256@, root@);
    }
    str_eq(p.schema.as_str(), PROTOCOL_FACET_PAYLOAD_SCHEMA_V3)
        && p.compiler_version == FACET_COMPILER_VERSION_V3
        && str_eq(p.source_protocol_facet_root_sha256.as_str(), m.protocol_facet_root_sha256.as_str())
        && str_eq(p.effect_law_id_sha256.as_str(), m.effect_law_id_sha256.as_str())
        && str_eq(p.relation_identity_sha256.as_str(), m.relation_identity_sha256.as_str())
        && str_eq(p.effect_invariant_root_sha256.as_str(), m.effect_invariant_root_sha256.as_str())
        && str_eq(p.action_class_root_sha256.as_str(), m.action_class_root_sha256.as_str())
        && str_eq(p.source_role_schema_root_sha256.as_str(), m.source_role_schema_root_sha256.as_str())
        && str_eq(p.selector_program_root_sha256.as_str(), m.selector_program_root_sha256.as_str())
        && str_eq(p.observed_emitted_types_root_sha256.as_str(), m.observed_emitted_types_root_sha256.as_str())
        && str_eq(p.legacy_capability_contract_root_sha256.as_str(), m.capability_protocol_root_sha256.as_str())
        && str_eq(p.argument_role_schema_root_sha256.as_str(), m.argument_role_schema_root_sha256.as_str())
        && str_eq(p.constant_contract_root_sha256.as_str(), m.constant_contract_root_sha256.as_str())
        && str_eq(p.structural_guard_root_sha256.as_str(), m.structural_guard_root_sha256.as_str())
        && str_eq(p.temporal_cardinality_contract_root_sha256.as_str(), m.temporal_cardinality_contract_root_sha256.as_str())
        && str_eq(p.payload_root_sha256.as_str(), root.as_str())
}

/// Checks that a facet payload belongs to a mode: its fixed fields, the
/// roots it copies from the mode, its own root, and its arguments.
pub fn validate_protocol_facet_payload_v3(payload: &ProtocolFacetPayloadV3, mode: &ProtocolModeV2) -> (r: Result<(), ExecutableProtocolModeErrorV3>)
    ensures
        r == spec_validate_facet(*payload, *mode),
{
    if !payload_fields_match_exec(payload, mode) {
        return Err(ExecutableProtocolModeErrorV3::InvalidArtifact);
    }
    let expected = match expected_protocol_arguments_v3(mode) {
        Ok(v) => v,
        Err(e) => {
            return Err(e);
        },
    };
    if !same_arguments(&payload.arguments, &expected) {
        return Err(ExecutableProtocolModeErrorV3::InvalidArtifact);
    }
    Ok(())
}

/// The facet payload of a mode for a capability kind and a facet root, up to its own root.
pub open spec fn payload_built_from(p: ProtocolFacetPayloadV3, facet_root: Seq<char>, kind: ProtocolCapabilityKindV3, m: ProtocolModeV2) -> bool {
    &&& p.schema@ == PROTOCOL_FACET_PAYLOAD_SCHEMA_V3@
    &&& p.compiler_version == FACET_COMPILER_VERSION_V3
    &&& p.source_protocol_facet_root_sha256@ == facet_root
    &&& p.capability_kind == kind
    &&& p.arguments@ == mode_arguments(m)
    &&& p.effect_law_id_sha256@ == m.effect_law_id_sha256@
    &&& p.relation_identity_sha256@ == m.relation_identity_sha256@
    &&& p.effect_invariant_root_sha256@ == m.effect_invariant_root_sha256@
    &&& p.action_class_root_sha256@ == m.action_class_root_sha256@
    &&& p.source_role_schema_root_sha256@ == m.source_role_schema_root_sha256@
    &&& p.selector_program_root_sha256@ == m.selector_program_root_sha256@
    &&& p.observed_emitted_types_root_sha256@ == m.observed_emitted_types_root_sha256@
    &&& p.legacy_capability_contract_root_sha256@ == m.capability_protocol_root_sha256@
    &&& p.argument_role_schema_root_sha256@ == m.argument_role_schema_root_sha256@
    &&& p.constant_contract_root_sha256@ == m.constant_contract_root_sha256@
    &&& p.structural_guard_root_sha256@ == m.structural_guard_root_sha256@
    &&& p.temporal_cardinality_contract_root_sha256@ == m.temporal_cardinality_contract_root_sha256@
    &&& utf8(p.payload_root_sha256@) == facet_payload_root(p)
}

/// Builds the facet payload of a mode: its arguments and the roots it
/// copies, sealed by its own root; refused when the mode has no facet
/// shape or the facet root is not the mode's.
pub fn build_protocol_facet_payload_v3(
    source_protocol_facet_root_sha256: String,
    capability_kind: ProtocolCapabilityKindV3,
    mode: &ProtocolModeV2,
) -> (r: Result<ProtocolFacetPayloadV3, ExecutableProtocolModeErrorV3>)
    ensures
        !facet_shape_ok(*mode) ==> r == Err::<ProtocolFacetPayloadV3, ExecutableProtocolModeErrorV3>(
            ExecutableProtocolModeErrorV3::UnsupportedFacetShape),
        facet_shape_ok(*mode) && source_protocol_facet_root_sha256@ != mode.protocol_facet_root_sha256@
            ==> r == Err::<ProtocolFacetPayloadV3, ExecutableProtocolModeErrorV3>(ExecutableProtocolModeErrorV3::InvalidArtifact),
        facet_shape_ok(*mode) && source_protocol_facet_root_sha256@ == mode.protocol_facet_root_sha256@
            ==> (r matches Ok(p) && payload_built_from(p, source_protocol_facet_root_sha256@, capability_kind, *mode)),
{
    let arguments = match expected_protocol_arguments_v3(mode) {
        Ok(v) => v,
        Err(e) => {
            return Err(e);
        },
    };
    let mut payload = ProtocolFacetPayloadV3 {
        schema: PROTOCOL_FACET_PAYLOAD_SCHEMA_V3.to_owned(),
        compiler_version: FACET_COMPILER_VERSION_V3,
        source_protocol_facet_root_sha256,
        capability_kind,
        physical_symbol_source: ProtocolPhysicalSymbolSourceV3::CurrentAdvertisedCapabilitySurface,
        arguments,
        default_semantics: ProtocolDefaultSemanticsV3::NoImplicitDefaults,
        effect_law_id_sha256: mode.effect_law_id_sha256.clone(),
        relation_identity_sha256: mode.relation_identity_sha256.clone(),
        effect_invariant_root_sha256: mode.effect_invariant_root_sha256.clone(),
        action_class_root_sha256: mode.action_class_root_sha256.clone(),
        source_role_schema_root_sha256: mode.source_role_schema_root_sha256.clone(),
        selector_program_root_sha256: mode.selector_program_root_sha256.clone(),
        observed_emitted_types_root_sha256: mode.observed_emitted_types_root_sha256.clone(),
        legacy_capability_contract_root_sha256: mode.capability_protocol_root_sha256.clone(),
        argument_role_schema_root_sha256: mode.argument_role_schema_root_sha256.clone(),
        constant_contract_root_sha256: mode.constant_contract_root_sha256.clone(),
        structural_guard_root_sha256: mode.structural_guard_root_sha256.clone(),
        temporal_cardinality_contract_root_sha256: mode.temporal_cardinality_contract_root_sha256.clone(),
        payload_root_sha256: String::new(),
    };
    let root = facet_payload_digest(&payload);
    let ghost before = payload;
    payload.payload_root_sha256 = root;
    assert(payload_members(payload, None) == payload_members(before, None));
    match validate_protocol_facet_payload_v3(&payload, mode) {
        Ok(()) => {},
        Err(e) => {
            return Err(e);
        },
    }
    Ok(payload)
}

/// What an executable mode binds: its source mode, the root of the mode's
/// physical programs, the payload, and the root over the three.
pub open spec fn executable_mode_of(x: ExecutableProtocolModeV3, m: ProtocolModeV2, p: ProtocolFacetPayloadV3) -> bool {
    &&& x.source_mode_id_sha256@ == m.mode_id_sha256@
    &&& utf8(x.source_physical_program_set_root_sha256@) == program_set_root(m)
    &&& x.payload == p
    &&& utf8(x.executable_mode_root_sha256@) == executable_mode_root(
        m.mode_id_sha256@, x.source_physical_program_set_root_sha256@, p.payload_root_sha256@)
}

/// Binds a facet payload to its mode, once the payload is checked against it.
pub fn build_executable_protocol_mode_v3(
    mode: &ProtocolModeV2,
    payload: ProtocolFacetPayloadV3,
) -> (r: Result<ExecutableProtocolModeV3, ExecutableProtocolModeErrorV3>)
    ensures
        facet_payload_error(payload, *mode) matches Some(e) ==> r == Err::<ExecutableProtocolModeV3, ExecutableProtocolModeErrorV3>(e),
        facet_payload_error(payload, *mode) is None ==> (r matches Ok(x) && executable_mode_of(x, *mode, payload)),
{
    match validate_protocol_facet_payload_v3(&payload, mode) {
        Ok(()) => {},
        Err(e) => {
            return Err(e);
        },
    }
    let program_set = canonical_json_sha256(&mode.program.capability_contract.physical_program_ids_sha256);
    let root = executable_mode_digest(mode.mode_id_sha256.as_str(), program_set.as_str(), payload.payload_root_sha256.as_str());
    Ok(ExecutableProtocolModeV3 {
        source_mode_id_sha256: mode.mode_id_sha256.clone(),
        source_physical_program_set_root_sha256: program_set,
        payload,
        executable_mode_root_sha256: root,
    })
}

// ---------------------------------------------------------------- JSON values

/// The JSON text of a value: numbers as their text, strings escaped,
/// arrays and objects with their items and members in order.
pub open spec fn json_value_bytes(v: JsonValue) -> Seq<u8>
    decreases v, 0int,
{
    match v {
        JsonValue::Null => utf8("null"@),
        JsonValue::Bool(b) => if b { utf8("true"@) } else { utf8("false"@) },
        JsonValue::Number(n) => utf8(n.text@),
        JsonValue::String(t) => json_str(t.text@),
        JsonValue::Array(items) => {
            proof {
                assert(decreases_to!(v => items));
                assert(decreases_to!(items => items@));
            }
            seq![0x5bu8] + value_items(items@, items@.len() as int) + seq![0x5du8]
        },
        JsonValue::Object(ms) => {
            proof {
                assert(decreases_to!(v => ms));
                assert(decreases_to!(ms => ms@));
            }
            seq![0x7bu8] + member_items(ms@, ms@.len() as int) + seq![0x7du8]
        },
    }
}

/// The first `n` items, comma-separated.
pub open spec fn value_items(items: Seq<JsonValue>, n: int) -> Seq<u8>
    decreases items, n,
{
    if n <= 0 || n > items.len() {
        Seq::empty()
    } else {
        proof {
            assert(decreases_to!(items => items[n - 1]));
        }
        if n == 1 {
            json_value_bytes(items[0])
        } else {
            value_items(items, n - 1) + seq![0x2cu8] + json_value_bytes(items[n - 1])
        }
    }
}

/// The first `n` members as `"key":value`, comma-separated.
pub open spec fn member_items(ms: Seq<JsonMember>, n: int) -> Seq<u8>
    decreases ms, n,
{
    if n <= 0 || n > ms.len() {
        Seq::empty()
    } else {
        proof {
            assert(decreases_to!(ms => ms[n - 1]));
            assert(decreases_to!(ms[n - 1] => ms[n - 1].value));
        }
        let m = json_str(ms[n - 1].key@) + seq![0x3au8] + json_value_bytes(ms[n - 1].value);
        if n == 1 {
            m
        } else {
            member_items(ms, n - 1) + seq![0x2cu8] + m
        }
    }
}

fn push_text(out: &mut Vec<u8>, s: &str)
    ensures
        final(out)@ == old(out)@ + utf8(s@),
{
    let b = s.as_bytes();
    let mut i: usize = 0;
    while i < b.len()
        invariant
            i <= b@.len(),
            b@ == utf8(s@),
            out@ == old(out)@ + b@.take(i as int),
        decreases b@.len() - i,
    {
        out.push(b[i]);
        assert(b@.take(i + 1) =~= b@.take(i as int).push(b@[i as int]));
        i = i + 1;
    }
    assert(b@.take(b@.len() as int) =~= b@);
}

fn write_json_value(out: &mut Vec<u8>, v: &JsonValue)
    ensures
        final(out)@ == old(out)@ + json_value_bytes(*v),
    decreases v,
{
    match v {
        JsonValue::Null => push_text(out, "null"),
        JsonValue::Bool(b) => {
            if *b {
                push_text(out, "true");
            } else {
                push_text(out, "false");
            }
        },
        JsonValue::Number(n) => push_text(out, n.text.as_str()),
        JsonValue::String(t) => write_str(out, t.text.as_str()),
        JsonValue::Array(items) => {
            out.push(0x5b);
            let ghost start = out@;
            let mut i: usize = 0;
            while i < items.len()
                invariant
                    *v == JsonValue::Array(*items),
                    i <= items@.len(),
                    out@ == start + value_items(items@, i as int),
                decreases items@.len() - i,
            {
                proof {
                    assert(decreases_to!(*v => (*v)->Array_0));
                    assert((*v)->Array_0 == *items);
                    assert(decreases_to!(*items => items@));
                    assert(decreases_to!(items@ => items@[i as int]));
                }
                if i > 0 {
                    out.push(0x2c);
                }
                write_json_value(out, &items[i]);
                assert(out@ =~= start + value_items(items@, i + 1));
                i = i + 1;
            }
            out.push(0x5d);
            assert(out@ =~= old(out)@ + json_value_bytes(*v));
        },
        JsonValue::Object(ms) => {
            out.push(0x7b);
            let ghost start = out@;
            let mut i: usize = 0;
            while i < ms.len()
                invariant
                    *v == JsonValue::Object(*ms),
                    i <= ms@.len(),
                    out@ == start + member_items(ms@, i as int),
                decreases ms@.len() - i,
            {
                proof {
                    assert(decreases_to!(*v => (*v)->Object_0));
                    assert((*v)->Object_0 == *ms);
                    assert(decreases_to!(*ms => ms@));
                    assert(decreases_to!(ms@ => ms@[i as int]));
                    assert(decreases_to!(ms@[i as int] => ms@[i as int].value));
                }
                if i > 0 {
                    out.push(0x2c);
                }
                write_str(out, ms[i].key.as_str());
                out.push(0x3a);
                write_json_value(out, &ms[i].value);
                assert(out@ =~= start + member_items(ms@, i + 1));
                i = i + 1;
            }
            out.push(0x7d);
            assert(out@ =~= old(out)@ + json_value_bytes(*v));
        },
    }
}

impl CanonicalJson for JsonValue {
    open spec fn json(&self) -> Seq<u8> {
        json_value_bytes(*self)
    }

    fn write_json(&self, out: &mut Vec<u8>) {
        write_json_value(out, self);
    }
}

// ---------------------------------------------------------------- mode sets

/// A mode set can be compiled when it is valid, chose modes, has at most
/// 32 of them, and claims neither admission nor authority.
pub open spec fn source_ok(set: ProtocolModeSetV2) -> bool {
    &&& spec_validate_set(set) is Ok
    &&& set.verdict == BindingProtocolCompileVerdictV2::ProtocolModeSet
    &&& set.modes@.len() > 0
    &&& set.modes@.len() <= MAX_EXECUTABLE_MODES_V3
    &&& !set.production_admissible
    &&& !set.execution_authority
}

/// Accepts a mode set that executable modes can be compiled from.
pub fn validate_executable_protocol_mode_source_v3(mode_set: &ProtocolModeSetV2) -> (r: Result<(), ExecutableProtocolModeErrorV3>)
    ensures
        r == (if source_ok(*mode_set) { Ok(()) } else { Err(ExecutableProtocolModeErrorV3::InvalidModeSet) }),
{
    if validate_protocol_mode_set_v2(mode_set).is_err()
        || mode_set.verdict != BindingProtocolCompileVerdictV2::ProtocolModeSet
        || mode_set.modes.len() == 0
        || mode_set.modes.len() > MAX_EXECUTABLE_MODES_V3
        || mode_set.production_admissible
        || mode_set.execution_authority
    {
        return Err(ExecutableProtocolModeErrorV3::InvalidModeSet);
    }
    Ok(())
}

// ---------------------------------------------------------------- effect law payloads

/// The member fields an effect law payload has, no more and no fewer.
pub open spec fn effect_law_fields() -> Set<Seq<char>> {
    set!["schema"@, "ir_version"@, "dictionary_root_sha256"@, "quotient_hypothesis_root_sha256"@,
        "topology_nodes"@, "topology_edges"@, "relation_program"@, "effect_invariant_root_sha256"@,
        "preserved_frame_root_sha256"@, "action_equivalence_root_sha256"@]
}

/// The keys of an object's members.
pub open spec fn member_keys(ms: Seq<JsonMember>) -> Set<Seq<char>> {
    Set::new(|k: Seq<char>| exists|i: int| 0 <= i < ms.len() && (#[trigger] ms[i]).key@ == k)
}

/// The value of the first member with a key.
pub open spec fn member_get(ms: Seq<JsonMember>, key: Seq<char>, q: int) -> Option<JsonValue>
    decreases ms.len() - q,
{
    if q < 0 || q >= ms.len() {
        None
    } else if ms[q].key@ == key {
        Some(ms[q].value)
    } else {
        member_get(ms, key, q + 1)
    }
}

/// The field of an object payload, if it is an object holding the key.
pub open spec fn field(v: JsonValue, key: Seq<char>) -> Option<JsonValue> {
    match v {
        JsonValue::Object(ms) => member_get(ms@, key, 0),
        _ => None,
    }
}

/// The text of a field that holds a string.
pub open spec fn text_field(v: JsonValue, key: Seq<char>) -> Option<Seq<char>> {
    match field(v, key) {
        Some(JsonValue::String(t)) => Some(t.text@),
        _ => None,
    }
}

/// A JSON number's value when it is a non-negative integer that fits in `u64`.
pub open spec fn number_u64(n: JsonNumber) -> Option<nat> {
    if n.integer && parses_u64(utf8(n.text@)) { Some(digits_value(utf8(n.text@))) } else { None }
}

/// A field that holds a non-empty array.
pub open spec fn nonempty_array_field(v: JsonValue, key: Seq<char>) -> bool {
    field(v, key) matches Some(JsonValue::Array(items)) && items@.len() > 0
}

/// An effect law payload fits a mode set: an object with exactly the law's
/// fields, its schema, a non-zero version, topology nodes and a relation
/// program, the set's law root, and the invariant and action class roots
/// (non-zero digests) that every mode of the set carries.
pub open spec fn effect_law_ok(v: JsonValue, root: Seq<char>, set: ProtocolModeSetV2) -> bool {
    &&& v matches JsonValue::Object(ms) && member_keys(ms@) == effect_law_fields()
    &&& text_field(v, "schema"@) == Some(CANONICAL_EFFECT_LAW_SCHEMA_V3@)
    &&& field(v, "ir_version"@) matches Some(JsonValue::Number(n)) && number_u64(n) matches Some(x) && x != 0
    &&& nonempty_array_field(v, "topology_nodes"@)
    &&& nonempty_array_field(v, "relation_program"@)
    &&& root == set.effect_law_id_sha256@
    &&& text_field(v, "effect_invariant_root_sha256"@) matches Some(inv)
    &&& text_field(v, "action_equivalence_root_sha256"@) matches Some(ac)
    &&& is_nonzero_sha256_text(utf8(inv))
    &&& is_nonzero_sha256_text(utf8(ac))
    &&& forall|j: int| 0 <= j < set.modes@.len() ==> (#[trigger] set.modes@[j]).effect_invariant_root_sha256@ == inv
        && set.modes@[j].action_class_root_sha256@ == ac
}

fn member_get_exec<'a>(ms: &'a Vec<JsonMember>, key: &str) -> (r: Option<&'a JsonValue>)
    ensures
        r matches Some(x) ==> member_get(ms@, key@, 0) == Some(*x),
        r is None ==> member_get(ms@, key@, 0) is None,
{
    let mut q: usize = 0;
    while q < ms.len()
        invariant
            q <= ms@.len(),
            member_get(ms@, key@, q as int) == member_get(ms@, key@, 0),
        decreases ms@.len() - q,
    {
        if str_eq(ms[q].key.as_str(), key) {
            return Some(&ms[q].value);
        }
        q = q + 1;
    }
    None
}

fn is_effect_law_field(k: &str) -> (r: bool)
    ensures
        r == effect_law_fields().contains(k@),
{
    str_eq(k, "schema") || str_eq(k, "ir_version") || str_eq(k, "dictionary_root_sha256")
        || str_eq(k, "quotient_hypothesis_root_sha256") || str_eq(k, "topology_nodes")
        || str_eq(k, "topology_edges") || str_eq(k, "relation_program")
        || str_eq(k, "effect_invariant_root_sha256") || str_eq(k, "preserved_frame_root_sha256")
        || str_eq(k, "action_equivalence_root_sha256")
}

fn has_key(ms: &Vec<JsonMember>, key: &str) -> (r: bool)
    ensures
        r == member_keys(ms@).contains(key@),
{
    let mut q: usize = 0;
    while q < ms.len()
        invariant
            q <= ms@.len(),
            forall|i: int| 0 <= i < q ==> (#[trigger] ms@[i]).key@ != key@,
        decreases ms@.len() - q,
    {
        if str_eq(ms[q].key.as_str(), key) {
            assert(ms@[q as int].key@ == key@);
            return true;
        }
        q = q + 1;
    }
    false
}

fn keys_are_effect_law_fields(ms: &Vec<JsonMember>) -> (r: bool)
    ensures
        r == (member_keys(ms@) == effect_law_fields()),
{
    let mut q: usize = 0;
    while q < ms.len()
        invariant
            q <= ms@.len(),
            forall|i: int| 0 <= i < q ==> effect_law_fields().contains((#[trigger] ms@[i]).key@),
        decreases ms@.len() - q,
    {
        if !is_effect_law_field(ms[q].key.as_str()) {
            assert(member_keys(ms@).contains(ms@[q as int].key@));
            return false;
        }
        q = q + 1;
    }
    assert(member_keys(ms@).subset_of(effect_law_fields()));
    let all = has_key(ms, "schema") && has_key(ms, "ir_version") && has_key(ms, "dictionary_root_sha256")
        && has_key(ms, "quotient_hypothesis_root_sha256") && has_key(ms, "topology_nodes")
        && has_key(ms, "topology_edges") && has_key(ms, "relation_program")
        && has_key(ms, "effect_invariant_root_sha256") && has_key(ms, "preserved_frame_root_sha256")
        && has_key(ms, "action_equivalence_root_sha256");
    if all {
        assert(member_keys(ms@) =~= effect_law_fields());
    } else {
        assert(member_keys(ms@) != effect_law_fields()) by {
            if member_keys(ms@) == effect_law_fields() {
                assert(effect_law_fields().contains("schema"@));
            }
        }
    }
    all
}

fn text_of(v: Option<&JsonValue>) -> (r: Option<&str>)
    ensures
        r matches Some(t) ==> v matches Some(x) && x matches JsonValue::String(s) && s.text@ == t@,
        r is None ==> !(v matches Some(x) && x matches JsonValue::String(_)),
{
    match v {
        Some(JsonValue::String(t)) => Some(t.text.as_str()),
        _ => None,
    }
}

fn nonempty_array(v: Option<&JsonValue>) -> (r: bool)
    ensures
        r == (v matches Some(x) && x matches JsonValue::Array(items) && items@.len() > 0),
{
    match v {
        Some(JsonValue::Array(items)) => items.len() > 0,
        _ => false,
    }
}

fn positive_u64(v: Option<&JsonValue>) -> (r: bool)
    ensures
        r == (v matches Some(x) && x matches JsonValue::Number(n) && number_u64(*n) matches Some(k) && k != 0),
{
    match v {
        Some(JsonValue::Number(n)) => {
            if !n.integer {
                return false;
            }
            let b = n.text.as_str().as_bytes();
            if b.len() > 0 && b[0] == 0x2b {
                proof {
                    assert(!crate::text::is_digit_byte(b@[0]));
                }
                return false;
            }
            let ghost t = b@;
            assert(t.len() > 0 && t[0] == 0x2b ==> false);
            match parse_u64_text(b) {
                Some(k) => {
                    assert(t.len() == 0 || t[0] != 0x2b);
                    k != 0
                },
                None => false,
            }
        },
        _ => false,
    }
}

/// Checks an effect law payload against its root and the mode set it serves.
pub fn validate_executable_effect_law_payload_v3(
    payload: &JsonValue,
    payload_root_sha256: &str,
    mode_set: &ProtocolModeSetV2,
) -> (r: Result<(), ExecutableProtocolModeErrorV3>)
    ensures
        r == (if effect_law_ok(*payload, payload_root_sha256@, *mode_set) { Ok(()) } else {
            Err(ExecutableProtocolModeErrorV3::InvalidEffectLaw)
        }),
{
    let ms = match payload {
        JsonValue::Object(ms) => ms,
        _ => {
            return Err(ExecutableProtocolModeErrorV3::InvalidEffectLaw);
        },
    };
    if !keys_are_effect_law_fields(ms) {
        return Err(ExecutableProtocolModeErrorV3::InvalidEffectLaw);
    }
    let schema = text_of(member_get_exec(ms, "schema"));
    let schema_ok = match schema {
        Some(t) => str_eq(t, CANONICAL_EFFECT_LAW_SCHEMA_V3),
        None => false,
    };
    if !schema_ok
        || !positive_u64(member_get_exec(ms, "ir_version"))
        || !nonempty_array(member_get_exec(ms, "topology_nodes"))
        || !nonempty_array(member_get_exec(ms, "relation_program"))
        || !str_eq(payload_root_sha256, mode_set.effect_law_id_sha256.as_str())
    {
        return Err(ExecutableProtocolModeErrorV3::InvalidEffectLaw);
    }
    let law_invariant = match text_of(member_get_exec(ms, "effect_invariant_root_sha256")) {
        Some(t) => t,
        None => {
            return Err(ExecutableProtocolModeErrorV3::InvalidEffectLaw);
        },
    };
    let action_class = match text_of(member_get_exec(ms, "action_equivalence_root_sha256")) {
        Some(t) => t,
        None => {
            return Err(ExecutableProtocolModeErrorV3::InvalidEffectLaw);
        },
    };
    assert(text_field(*payload, "effect_invariant_root_sha256"@) == Some(law_invariant@));
    assert(text_field(*payload, "action_equivalence_root_sha256"@) == Some(action_class@));
    if !valid_nonzero_sha256(law_invariant) || !valid_nonzero_sha256(action_class) {
        return Err(ExecutableProtocolModeErrorV3::InvalidEffectLaw);
    }
    let modes = &mode_set.modes;
    let mut j: usize = 0;
    while j < modes.len()
        invariant
            j <= modes@.len(),
            modes == &mode_set.modes,
            text_field(*payload, "effect_invariant_root_sha256"@) == Some(law_invariant@),
            text_field(*payload, "action_equivalence_root_sha256"@) == Some(action_class@),
            forall|k: int| 0 <= k < j ==> (#[trigger] modes@[k]).effect_invariant_root_sha256@ == law_invariant@
                && modes@[k].action_class_root_sha256@ == action_class@,
        decreases modes@.len() - j,
    {
        if !str_eq(modes[j].effect_invariant_root_sha256.as_str(), law_invariant)
            || !str_eq(modes[j].action_class_root_sha256.as_str(), action_class)
        {
            assert(!((mode_set.modes@[j as int]).effect_invariant_root_sha256@ == law_invariant@
                && mode_set.modes@[j as int].action_class_root_sha256@ == action_class@));
            return Err(ExecutableProtocolModeErrorV3::InvalidEffectLaw);
        }
        j = j + 1;
    }
    Ok(())
}

// ---------------------------------------------------------------- artifacts

/// The root of an artifact: the digest of its schema, version, mode set
/// root, effect law root, modes and flags, as a JSON tuple.
pub open spec fn artifact_root(a: ExecutableProtocolModeArtifactV3) -> Seq<u8> {
    json_identity(tuple(seq![json_str(a.schema@)]
        .push(a.compiler_version.json())
        .push(json_str(a.source_mode_set.mode_set_sha256@))
        .push(json_str(a.effect_law_payload_root_sha256@))
        .push(a.modes.json())
        .push(a.production_admissible.json())
        .push(a.execution_authority.json())))
}

fn artifact_digest(a: &ExecutableProtocolModeArtifactV3) -> (r: String)
    ensures
        utf8(r@) == artifact_root(*a),
{
    let mut out: Vec<u8> = Vec::new();
    let st = begin_tuple(&mut out);
    let st = write_item_str(&mut out, st, a.schema.as_str());
    let st = write_item(&mut out, st, &a.compiler_version);
    let st = write_item_str(&mut out, st, a.source_mode_set.mode_set_sha256.as_str());
    let st = write_item_str(&mut out, st, a.effect_law_payload_root_sha256.as_str());
    let st = write_item(&mut out, st, &a.modes);
    let st = write_item(&mut out, st, &a.production_admissible);
    let st = write_item(&mut out, st, &a.execution_authority);
    end_tuple(&mut out, st);
    sha256_hex(out.as_slice())
}

/// Why an executable mode does not stand for a source mode, if it does not.
#[verifier::opaque]
pub open spec fn entry_error(e: ExecutableProtocolModeV3, m: ProtocolModeV2) -> Option<ExecutableProtocolModeErrorV3> {
    if !(e.source_mode_id_sha256@ == m.mode_id_sha256@
        && utf8(e.source_physical_program_set_root_sha256@) == program_set_root(m)
        && utf8(e.executable_mode_root_sha256@) == executable_mode_root(
            e.source_mode_id_sha256@, e.source_physical_program_set_root_sha256@, e.payload.payload_root_sha256@)) {
        Some(ExecutableProtocolModeErrorV3::InvalidArtifact)
    } else {
        facet_payload_error(e.payload, m)
    }
}

/// The first entry error among the first `n` pairs.
pub open spec fn first_entry_error(es: Seq<ExecutableProtocolModeV3>, ms: Seq<ProtocolModeV2>, n: int) -> Option<ExecutableProtocolModeErrorV3>
    decreases n,
{
    if n <= 0 {
        None
    } else {
        match first_entry_error(es, ms, n - 1) {
            Some(e) => Some(e),
            None => entry_error(es[n - 1], ms[n - 1]),
        }
    }
}

/// The executable modes are in strictly increasing order of source mode id.
pub open spec fn modes_increasing(es: Seq<ExecutableProtocolModeV3>) -> bool {
    forall|i: int| 0 <= i && i + 1 < es.len() ==> #[trigger] ids_ascend_at(es, i)
}

/// The mode at `i` has a smaller source mode id than the next.
#[verifier::opaque]
pub open spec fn ids_ascend_at(es: Seq<ExecutableProtocolModeV3>, i: int) -> bool {
    lex_lt(utf8(es[i].source_mode_id_sha256@), utf8(es[i + 1].source_mode_id_sha256@))
}

/// Why executable modes do not stand for the modes of a set, one by one.
pub open spec fn modes_error(set: ProtocolModeSetV2, es: Seq<ExecutableProtocolModeV3>) -> Option<ExecutableProtocolModeErrorV3> {
    if es.len() != set.modes@.len() || !modes_increasing(es) {
        Some(ExecutableProtocolModeErrorV3::InvalidArtifact)
    } else {
        first_entry_error(es, set.modes@, es.len() as int)
    }
}

/// The sealed fields of an artifact: its schema, version, no admission or
/// authority, and the roots of its effect law and of itself.
pub open spec fn artifact_sealed(a: ExecutableProtocolModeArtifactV3) -> bool {
    &&& a.schema@ == EXECUTABLE_PROTOCOL_MODE_ARTIFACT_SCHEMA_V3@
    &&& a.compiler_version == FACET_COMPILER_VERSION_V3
    &&& !a.production_admissible
    &&& !a.execution_authority
    &&& utf8(a.effect_law_payload_root_sha256@) == json_identity(json_value_bytes(a.effect_law_payload))
    &&& utf8(a.artifact_sha256@) == artifact_root(a)
}

/// Why an artifact is refused, if it is, in the order of the checks.
#[verifier::opaque]
pub open spec fn artifact_error(a: ExecutableProtocolModeArtifactV3) -> Option<ExecutableProtocolModeErrorV3> {
    if !source_ok(a.source_mode_set) {
        Some(ExecutableProtocolModeErrorV3::InvalidModeSet)
    } else if !artifact_sealed(a) {
        Some(ExecutableProtocolModeErrorV3::InvalidArtifact)
    } else if !effect_law_ok(a.effect_law_payload, a.effect_law_payload_root_sha256@, a.source_mode_set) {
        Some(ExecutableProtocolModeErrorV3::InvalidEffectLaw)
    } else {
        modes_error(a.source_mode_set, a.modes@)
    }
}

fn entry_error_exec(e: &ExecutableProtocolModeV3, m: &ProtocolModeV2) -> (r: Result<(), ExecutableProtocolModeErrorV3>)
    ensures
        r == (match entry_error(*e, *m) { Some(x) => Err(x), None => Ok(()) }),
{
    let program_set = canonical_json_sha256(&m.program.capability_contract.physical_program_ids_sha256);
    let root = executable_mode_digest(e.source_mode_id_sha256.as_str(), e.source_physical_program_set_root_sha256.as_str(), e.payload.payload_root_sha256.as_str());
    proof {
        reveal(entry_error);
        lemma_utf8_injective(e.source_physical_program_set_root_sha256@, program_set@);
        lemma_utf8_injective(e.executable_mode_root_sha256@, root@);
    }
    if !str_eq(e.source_mode_id_sha256.as_str(), m.mode_id_sha256.as_str())
        || !str_eq(e.source_physical_program_set_root_sha256.as_str(), program_set.as_str())
        || !str_eq(e.executable_mode_root_sha256.as_str(), root.as_str())
    {
        return Err(ExecutableProtocolModeErrorV3::InvalidArtifact);
    }
    validate_protocol_facet_payload_v3(&e.payload, m)
}

fn modes_error_exec(set: &ProtocolModeSetV2, es: &Vec<ExecutableProtocolModeV3>) -> (r: Result<(), ExecutableProtocolModeErrorV3>)
    ensures
        r == (match modes_error(*set, es@) { Some(x) => Err(x), None => Ok(()) }),
{
    if es.len() != set.modes.len() {
        return Err(ExecutableProtocolModeErrorV3::InvalidArtifact);
    }
    let mut i: usize = 0;
    let last: usize = if es.len() > 0 { es.len() - 1 } else { 0 };
    while i < last
        invariant
            last == (if es@.len() > 0 { es@.len() - 1 } else { 0 }),
            i <= last,
            forall|k: int| 0 <= k < i ==> #[trigger] ids_ascend_at(es@, k),
        decreases last - i,
    {
        let lt = bytes_lt(es[i].source_mode_id_sha256.as_str().as_bytes(), es[i + 1].source_mode_id_sha256.as_str().as_bytes());
        proof {
            reveal(ids_ascend_at);
            assert(lt == ids_ascend_at(es@, i as int));
        }
        if !lt {
            assert(!modes_increasing(es@));
            return Err(ExecutableProtocolModeErrorV3::InvalidArtifact);
        }
        i = i + 1;
    }
    assert(modes_increasing(es@)) by {
        assert forall|k: int| 0 <= k && k + 1 < es@.len() implies #[trigger] ids_ascend_at(es@, k) by {
            assert(k < i);
        }
    }
    let mut j: usize = 0;
    while j < es.len()
        invariant
            j <= es@.len(),
            es@.len() == set.modes@.len(),
            modes_increasing(es@),
            first_entry_error(es@, set.modes@, j as int) is None,
        decreases es@.len() - j,
    {
        match entry_error_exec(&es[j], &set.modes[j]) {
            Ok(()) => {},
            Err(e) => {
                proof {
                    lemma_first_entry_error_stable(es@, set.modes@, j + 1, es@.len() as int);
                }
                return Err(e);
            },
        }
        j = j + 1;
    }
    Ok(())
}

proof fn lemma_first_entry_error_stable(es: Seq<ExecutableProtocolModeV3>, ms: Seq<ProtocolModeV2>, i: int, n: int)
    requires
        0 <= i <= n,
        first_entry_error(es, ms, i) is Some,
    ensures
        first_entry_error(es, ms, n) == first_entry_error(es, ms, i),
    decreases n - i,
{
    if i < n {
        lemma_first_entry_error_stable(es, ms, i, n - 1);
    }
}

/// Checks an artifact: its mode set, its sealed fields, its effect law, and
/// each executable mode against the source mode at its place.
pub fn validate_executable_protocol_mode_artifact_v3(artifact: &ExecutableProtocolModeArtifactV3) -> (r: Result<(), ExecutableProtocolModeErrorV3>)
    ensures
        r == (match artifact_error(*artifact) { Some(x) => Err(x), None => Ok(()) }),
{
    reveal(artifact_error);
    match validate_executable_protocol_mode_source_v3(&artifact.source_mode_set) {
        Ok(()) => {},
        Err(e) => {
            return Err(e);
        },
    }
    let law_root = canonical_json_sha256(&artifact.effect_law_payload);
    let root = artifact_digest(artifact);
    proof {
        lemma_utf8_injective(artifact.effect_law_payload_root_sha256@, law_root@);
        lemma_utf8_injective(artifact.artifact_sha256@, root@);
    }
    if !str_eq(artifact.schema.as_str(), EXECUTABLE_PROTOCOL_MODE_ARTIFACT_SCHEMA_V3)
        || artifact.compiler_version != FACET_COMPILER_VERSION_V3
        || artifact.production_admissible
        || artifact.execution_authority
        || !str_eq(artifact.effect_law_payload_root_sha256.as_str(), law_root.as_str())
        || !str_eq(artifact.artifact_sha256.as_str(), root.as_str())
    {
        return Err(ExecutableProtocolModeErrorV3::InvalidArtifact);
    }
    match validate_executable_effect_law_payload_v3(
        &artifact.effect_law_payload,
        artifact.effect_law_payload_root_sha256.as_str(),
        &artifact.source_mode_set,
    ) {
        Ok(()) => {},
        Err(e) => {
            return Err(e);
        },
    }
    modes_error_exec(&artifact.source_mode_set, &artifact.modes)
}

/// Executable modes order by source mode id.
pub open spec fn mode_id_lt(a: ExecutableProtocolModeV3, b: ExecutableProtocolModeV3) -> bool {
    lex_lt(utf8(a.source_mode_id_sha256@), utf8(b.source_mode_id_sha256@))
}

/// Puts an executable mode after every mode whose id is not greater.
pub open spec fn insert_mode(s: Seq<ExecutableProtocolModeV3>, x: ExecutableProtocolModeV3) -> Seq<ExecutableProtocolModeV3>
    decreases s.len(),
{
    if s.len() == 0 {
        seq![x]
    } else if mode_id_lt(x, s[0]) {
        seq![x] + s
    } else {
        seq![s[0]] + insert_mode(s.subrange(1, s.len() as int), x)
    }
}

/// The executable modes by source mode id; equal ids keep their order.
pub open spec fn order_modes(s: Seq<ExecutableProtocolModeV3>) -> Seq<ExecutableProtocolModeV3>
    decreases s.len(),
{
    if s.len() == 0 { s } else { insert_mode(order_modes(s.drop_last()), s.last()) }
}

proof fn lemma_insert_mode_at(s: Seq<ExecutableProtocolModeV3>, x: ExecutableProtocolModeV3, p: int)
    requires
        0 <= p <= s.len(),
        forall|k: int| 0 <= k < p ==> !mode_id_lt(x, #[trigger] s[k]),
        p == s.len() || mode_id_lt(x, s[p]),
    ensures
        insert_mode(s, x) == s.insert(p, x),
    decreases s.len(),
{
    if s.len() == 0 {
        assert(s.insert(p, x) =~= seq![x]);
    } else if p == 0 {
        assert(s.insert(0, x) =~= seq![x] + s);
    } else {
        let t = s.subrange(1, s.len() as int);
        assert forall|k: int| 0 <= k < p - 1 implies !mode_id_lt(x, #[trigger] t[k]) by {
            assert(t[k] == s[k + 1]);
        }
        if p - 1 < t.len() {
            assert(t[p - 1] == s[p]);
        }
        assert(!mode_id_lt(x, s[0]));
        lemma_insert_mode_at(t, x, p - 1);
        assert(s.insert(p, x) =~= seq![s[0]] + t.insert(p - 1, x));
    }
}

fn order_modes_exec(modes: Vec<ExecutableProtocolModeV3>) -> (r: Vec<ExecutableProtocolModeV3>)
    ensures
        r@ == order_modes(modes@),
{
    let ghost all = modes@;
    let n = modes.len();
    let mut rest = modes;
    let mut out: Vec<ExecutableProtocolModeV3> = Vec::new();
    let mut i: usize = 0;
    while rest.len() > 0
        invariant
            all.len() == n,
            i + rest@.len() == all.len(),
            rest@ == all.subrange(i as int, all.len() as int),
            out@ == order_modes(all.take(i as int)),
        decreases rest@.len(),
    {
        let ghost rv = rest@;
        let x = rest.remove(0);
        assert(x == all[i as int]);
        assert(rest@ =~= all.subrange(i + 1, all.len() as int));
        let mut p: usize = 0;
        while p < out.len() && !bytes_lt(x.source_mode_id_sha256.as_str().as_bytes(), out[p].source_mode_id_sha256.as_str().as_bytes())
            invariant
                p <= out@.len(),
                forall|k: int| 0 <= k < p ==> !mode_id_lt(x, #[trigger] out@[k]),
            decreases out@.len() - p,
        {
            p = p + 1;
        }
        proof {
            lemma_insert_mode_at(out@, x, p as int);
            assert(all.take(i + 1).drop_last() =~= all.take(i as int));
            assert(all.take(i + 1).last() == x);
        }
        out.insert(p, x);
        i = i + 1;
    }
    assert(all.take(all.len() as int) =~= all);
    out
}

/// What an artifact assembled from a mode set, an effect law payload and
/// executable modes holds.
pub open spec fn artifact_assembled(
    a: ExecutableProtocolModeArtifactV3, set: ProtocolModeSetV2, payload: JsonValue, modes: Seq<ExecutableProtocolModeV3>,
) -> bool {
    &&& a.source_mode_set == set
    &&& a.effect_law_payload == payload
    &&& a.modes@ == order_modes(modes)
    &&& artifact_sealed(a)
}

/// Assembles the artifact of a mode set: its effect law payload, sealed by
/// its root, and its executable modes by source mode id; refused when the
/// set or the law does not fit, or when the modes do not stand for the set's.
pub fn build_executable_protocol_mode_artifact_v3(
    mode_set: ProtocolModeSetV2,
    effect_law_payload: JsonValue,
    modes: Vec<ExecutableProtocolModeV3>,
) -> (r: Result<ExecutableProtocolModeArtifactV3, ExecutableProtocolModeErrorV3>)
    ensures
        !source_ok(mode_set) ==> r == Err::<ExecutableProtocolModeArtifactV3, ExecutableProtocolModeErrorV3>(
            ExecutableProtocolModeErrorV3::InvalidModeSet),
        source_ok(mode_set) && !effect_law_ok(effect_law_payload, mode_set.effect_law_id_sha256@, mode_set)
            ==> r == Err::<ExecutableProtocolModeArtifactV3, ExecutableProtocolModeErrorV3>(
                ExecutableProtocolModeErrorV3::InvalidEffectLaw),
        source_ok(mode_set) && utf8(mode_set.effect_law_id_sha256@) != json_identity(json_value_bytes(effect_law_payload))
            ==> r == Err::<ExecutableProtocolModeArtifactV3, ExecutableProtocolModeErrorV3>(
                ExecutableProtocolModeErrorV3::InvalidEffectLaw),
        source_ok(mode_set) && effect_law_ok(effect_law_payload, mode_set.effect_law_id_sha256@, mode_set)
            && utf8(mode_set.effect_law_id_sha256@) == json_identity(json_value_bytes(effect_law_payload)) ==> (
            match modes_error(mode_set, order_modes(modes@)) {
                Some(e) => r == Err::<ExecutableProtocolModeArtifactV3, ExecutableProtocolModeErrorV3>(e),
                None => r matches Ok(a) && artifact_assembled(a, mode_set, effect_law_payload, modes@),
            }),
{
    match validate_executable_protocol_mode_source_v3(&mode_set) {
        Ok(()) => {},
        Err(e) => {
            return Err(e);
        },
    }
    let law_root = canonical_json_sha256(&effect_law_payload);
    proof {
        lemma_utf8_injective(law_root@, mode_set.effect_law_id_sha256@);
    }
    match validate_executable_effect_law_payload_v3(&effect_law_payload, law_root.as_str(), &mode_set) {
        Ok(()) => {},
        Err(e) => {
            return Err(e);
        },
    }
    let ordered = order_modes_exec(modes);
    let mut artifact = ExecutableProtocolModeArtifactV3 {
        schema: EXECUTABLE_PROTOCOL_MODE_ARTIFACT_SCHEMA_V3.to_owned(),
        compiler_version: FACET_COMPILER_VERSION_V3,
        artifact_sha256: String::new(),
        source_mode_set: mode_set,
        effect_law_payload,
        effect_law_payload_root_sha256: law_root,
        modes: ordered,
        production_admissible: false,
        execution_authority: false,
    };
    let root = artifact_digest(&artifact);
    let ghost before = artifact;
    artifact.artifact_sha256 = root;
    assert(artifact_root(artifact) == artifact_root(before));
    proof {
        reveal(artifact_error);
    }
    match validate_executable_protocol_mode_artifact_v3(&artifact) {
        Ok(()) => Ok(artifact),
        Err(e) => Err(e),
    }
}

// ---------------------------------------------------------------- laws

/// A facet payload built for a mode, under the mode's own facet root,
/// passes the payload check against that mode.
pub proof fn lemma_built_payload_validates(p: ProtocolFacetPayloadV3, kind: ProtocolCapabilityKindV3, m: ProtocolModeV2)
    requires
        facet_shape_ok(m),
        payload_built_from(p, m.protocol_facet_root_sha256@, kind, m),
    ensures
        facet_payload_error(p, m) is None,
{
}

/// An artifact assembled from a compilable mode set, an effect law that
/// fits it, and executable modes that stand for the set's modes passes the
/// artifact check.
pub proof fn lemma_assembled_artifact_validates(
    a: ExecutableProtocolModeArtifactV3, set: ProtocolModeSetV2, payload: JsonValue, modes: Seq<ExecutableProtocolModeV3>,
)
    requires
        source_ok(set),
        effect_law_ok(payload, a.effect_law_payload_root_sha256@, set),
        modes_error(set, order_modes(modes)) is None,
        artifact_assembled(a, set, payload, modes),
    ensures
        artifact_error(a) is None,
{
    reveal(artifact_error);
}

/// An executable mode built from a payload that belongs to its mode stands
/// for that mode.
pub proof fn lemma_built_mode_stands_for_source(x: ExecutableProtocolModeV3, m: ProtocolModeV2, p: ProtocolFacetPayloadV3)
    requires
        facet_payload_error(p, m) is None,
        executable_mode_of(x, m, p),
    ensures
        entry_error(x, m) is None,
{
    reveal(entry_error);
}

// ---------------------------------------------------------------- accessors

/// Whether an artifact read from bytes names the expected root: the root is
/// a non-zero SHA-256 text and the artifact carries it.
pub open spec fn artifact_names_root(a: ExecutableProtocolModeArtifactV3, expected: Seq<char>) -> bool {
    is_nonzero_sha256_text(utf8(expected)) && a.artifact_sha256@ == expected
}

/// Accepts an artifact decoded from the given bytes only when it carries the
/// expected root, is valid, and the bytes are exactly its canonical JSON.
/// A wrong root or non-canonical bytes are refused as an invalid artifact;
/// an invalid artifact with the error its validation gives.
pub fn accept_decoded_executable_protocol_mode_artifact_v3(
    artifact: ExecutableProtocolModeArtifactV3,
    bytes: &[u8],
    expected_artifact_root_sha256: &str,
) -> (r: Result<ExecutableProtocolModeArtifactV3, ExecutableProtocolModeErrorV3>)
    ensures
        !artifact_names_root(artifact, expected_artifact_root_sha256@)
            ==> r == Err::<ExecutableProtocolModeArtifactV3, ExecutableProtocolModeErrorV3>(
            ExecutableProtocolModeErrorV3::InvalidArtifact,
        ),
        artifact_names_root(artifact, expected_artifact_root_sha256@) ==> match artifact_error(artifact) {
            Some(e) => r == Err::<ExecutableProtocolModeArtifactV3, ExecutableProtocolModeErrorV3>(e),
            None => if artifact.json() == bytes@ {
                r == Ok::<ExecutableProtocolModeArtifactV3, ExecutableProtocolModeErrorV3>(artifact)
            } else {
                r == Err::<ExecutableProtocolModeArtifactV3, ExecutableProtocolModeErrorV3>(
                    ExecutableProtocolModeErrorV3::InvalidArtifact,
                )
            },
        },
{
    if !valid_nonzero_sha256(expected_artifact_root_sha256)
        || !str_eq(artifact.artifact_sha256.as_str(), expected_artifact_root_sha256) {
        return Err(ExecutableProtocolModeErrorV3::InvalidArtifact);
    }
    match validate_executable_protocol_mode_artifact_v3(&artifact) {
        Err(e) => Err(e),
        Ok(()) => {
            let mut out: Vec<u8> = Vec::new();
            artifact.write_json(&mut out);
            assert(out@ =~= artifact.json());
            if bytes_eq(out.as_slice(), bytes) {
                Ok(artifact)
            } else {
                Err(ExecutableProtocolModeErrorV3::InvalidArtifact)
            }
        },
    }
}

/// The canonical JSON of an artifact: its fields in key order.
impl CanonicalJson for ExecutableProtocolModeArtifactV3 {
    open spec fn json(&self) -> Seq<u8> {
        object(seq![("artifact_sha256"@, self.artifact_sha256.json())]
            .push(("compiler_version"@, self.compiler_version.json()))
            .push(("effect_law_payload"@, self.effect_law_payload.json()))
            .push(("effect_law_payload_root_sha256"@, self.effect_law_payload_root_sha256.json()))
            .push(("execution_authority"@, self.execution_authority.json()))
            .push(("modes"@, self.modes.json()))
            .push(("production_admissible"@, self.production_admissible.json()))
            .push(("schema"@, self.schema.json()))
            .push(("source_mode_set"@, self.source_mode_set.json())))
    }

    fn write_json(&self, out: &mut Vec<u8>) {
        let st = begin_object(out);
        let st = write_member(out, st, "artifact_sha256", &self.artifact_sha256);
        let st = write_member(out, st, "compiler_version", &self.compiler_version);
        let st = write_member(out, st, "effect_law_payload", &self.effect_law_payload);
        let st = write_member(out, st, "effect_law_payload_root_sha256", &self.effect_law_payload_root_sha256);
        let st = write_member(out, st, "execution_authority", &self.execution_authority);
        let st = write_member(out, st, "modes", &self.modes);
        let st = write_member(out, st, "production_admissible", &self.production_admissible);
        let st = write_member(out, st, "schema", &self.schema);
        let st = write_member(out, st, "source_mode_set", &self.source_mode_set);
        end_object(out, st);
    }
}

impl ExecutableProtocolModeArtifactV3 {
    /// The canonical bytes of the artifact: its canonical JSON.
    pub fn canonical_bytes(&self) -> (r: Result<Vec<u8>, ExecutableProtocolModeErrorV3>)
        ensures
            r matches Ok(b) && b@ == self.json(),
    {
        let mut out: Vec<u8> = Vec::new();
        self.write_json(&mut out);
        assert(out@ =~= self.json());
        Ok(out)
    }

    pub fn artifact_sha256(&self) -> (r: &str)
        ensures
            r@ == self.artifact_sha256@,
    {
        self.artifact_sha256.as_str()
    }

    pub fn source_mode_set(&self) -> (r: &ProtocolModeSetV2)
        ensures
            *r == self.source_mode_set,
    {
        &self.source_mode_set
    }

    pub fn effect_law_payload(&self) -> (r: &JsonValue)
        ensures
            *r == self.effect_law_payload,
    {
        &self.effect_law_payload
    }

    pub fn modes(&self) -> (r: &[ExecutableProtocolModeV3])
        ensures
            r@ == self.modes@,
    {
        self.modes.as_slice()
    }

    pub fn production_admissible(&self) -> (r: bool)
        ensures
            r == self.production_admissible,
    {
        self.production_admissible
    }

    pub fn execution_authority(&self) -> (r: bool)
        ensures
            r == self.execution_authority,
    {
        self.execution_authority
    }
}

impl ExecutableProtocolModeV3 {
    pub fn source_mode_id_sha256(&self) -> (r: &str)
        ensures
            r@ == self.source_mode_id_sha256@,
    {
        self.source_mode_id_sha256.as_str()
    }

    pub fn payload(&self) -> (r: &ProtocolFacetPayloadV3)
        ensures
            *r == self.payload,
    {
        &self.payload
    }

    pub fn executable_mode_root_sha256(&self) -> (r: &str)
        ensures
            r@ == self.executable_mode_root_sha256@,
    {
        self.executable_mode_root_sha256.as_str()
    }
}

impl ProtocolFacetPayloadV3 {
    pub fn capability_kind(&self) -> (r: ProtocolCapabilityKindV3)
        ensures
            r == self.capability_kind,
    {
        self.capability_kind
    }

    pub fn physical_symbol_source(&self) -> (r: ProtocolPhysicalSymbolSourceV3)
        ensures
            r == self.physical_symbol_source,
    {
        self.physical_symbol_source
    }

    pub fn arguments(&self) -> (r: &[ProtocolCapabilityArgumentV3])
        ensures
            r@ == self.arguments@,
    {
        self.arguments.as_slice()
    }

    pub fn payload_root_sha256(&self) -> (r: &str)
        ensures
            r@ == self.payload_root_sha256@,
    {
        self.payload_root_sha256.as_str()
    }
}

impl ProtocolCapabilityArgumentV3 {
    pub fn argument_ordinal(&self) -> (r: u16)
        ensures
            r == self.argument_ordinal,
    {
        self.argument_ordinal
    }

    pub fn source_role_id(&self) -> (r: u16)
        ensures
            r == self.source_role_id,
    {
        self.source_role_id
    }

    pub fn value_type(&self) -> (r: BindingValueTypeV1)
        ensures
            r == self.value_type,
    {
        self.value_type
    }
}

} // verus!
