//! Bound protocol actions: a protocol mode's call bound to a request, with
//! typed argument values under physical names, and the digests of its
//! semantic action, its physical action and its derivation.
use vstd::prelude::*;
use crate::binding::BindingValueTypeV1;
use crate::text::{utf8, str_eq, is_alnum_byte, alnum_byte, lemma_utf8_injective};
use crate::json::{
    CanonicalJson, json_str, dec, json_bool, object, begin_object, write_member,
    write_member_str, end_object, json_identity, tuple, TupleState, tuple_open, begin_tuple, write_item,
    write_item_str, end_tuple, joined,
};
use crate::digest::{sha256_hex, is_nonzero_sha256_text, valid_nonzero_sha256};
use crate::structural_context::RuntimeCapabilityKindV3;

verus! {

pub const BOUND_PROTOCOL_ACTION_SCHEMA_V3: &'static str = "nando.bound-protocol-action.v3";
pub const MAX_BOUND_PROTOCOL_ARGUMENTS_V3: usize = 32;

#[derive(Clone, Debug, PartialEq, Eq)]
pub enum BoundProtocolValueV3 {
    String(String),
    Integer(u64),
    Boolean(bool),
    Identifier(String),
}

impl BoundProtocolValueV3 {
    pub fn value_type(&self) -> (r: BindingValueTypeV1)
        ensures
            r == (match self {
                BoundProtocolValueV3::String(_) => BindingValueTypeV1::String,
                BoundProtocolValueV3::Integer(_) => BindingValueTypeV1::Integer,
                BoundProtocolValueV3::Boolean(_) => BindingValueTypeV1::Boolean,
                BoundProtocolValueV3::Identifier(_) => BindingValueTypeV1::Identifier,
            }),
    {
        match self {
            BoundProtocolValueV3::String(_) => BindingValueTypeV1::String,
            BoundProtocolValueV3::Integer(_) => BindingValueTypeV1::Integer,
            BoundProtocolValueV3::Boolean(_) => BindingValueTypeV1::Boolean,
            BoundProtocolValueV3::Identifier(_) => BindingValueTypeV1::Identifier,
        }
    }
}

/// A value's JSON: its type and its value, `{"type":..,"value":..}`.
impl CanonicalJson for BoundProtocolValueV3 {
    open spec fn json(&self) -> Seq<u8> {
        match self {
            BoundProtocolValueV3::String(s) => object(seq![("type"@, json_str("string"@))].push(("value"@, json_str(s@)))),
            BoundProtocolValueV3::Integer(n) => object(seq![("type"@, json_str("integer"@))].push(("value"@, dec(*n as nat)))),
            BoundProtocolValueV3::Boolean(b) => object(seq![("type"@, json_str("boolean"@))].push(("value"@, json_bool(*b)))),
            BoundProtocolValueV3::Identifier(s) => object(seq![("type"@, json_str("identifier"@))].push(("value"@, json_str(s@)))),
        }
    }

    fn write_json(&self, out: &mut Vec<u8>) {
        let st = begin_object(out);
        match self {
            BoundProtocolValueV3::String(s) => {
                let st = write_member_str(out, st, "type", "string");
                let st = write_member_str(out, st, "value", s.as_str());
                end_object(out, st);
            },
            BoundProtocolValueV3::Integer(n) => {
                let st = write_member_str(out, st, "type", "integer");
                let st = write_member(out, st, "value", n);
                end_object(out, st);
            },
            BoundProtocolValueV3::Boolean(b) => {
                let st = write_member_str(out, st, "type", "boolean");
                let st = write_member(out, st, "value", b);
                end_object(out, st);
            },
            BoundProtocolValueV3::Identifier(s) => {
                let st = write_member_str(out, st, "type", "identifier");
                let st = write_member_str(out, st, "value", s.as_str());
                end_object(out, st);
            },
        }
    }
}

#[derive(Clone, Debug, PartialEq, Eq)]
pub struct BoundProtocolArgumentV3 {
    pub argument_ordinal: u16,
    pub source_role_id: u16,
    pub physical_name: String,
    pub value: BoundProtocolValueV3,
}

#[derive(Clone, Debug, PartialEq, Eq)]
pub struct BoundProtocolActionV3 {
    pub index_sha256: String,
    pub artifact_root_sha256: String,
    pub mode_id_sha256: String,
    pub executable_mode_root_sha256: String,
    pub payload_root_sha256: String,
    pub effect_law_id_sha256: String,
    pub action_class_root_sha256: String,
    pub request_view_sha256: String,
    pub mapping_sha256: String,
    pub capability_id: u16,
    pub capability_kind: RuntimeCapabilityKindV3,
    pub physical_symbol: String,
    pub arguments: Vec<BoundProtocolArgumentV3>,
    pub semantic_action_sha256: String,
    pub physical_action_sha256: String,
    pub derivation_sha256: String,
}

#[derive(Clone, Debug, PartialEq, Eq)]
pub struct BoundProtocolArgumentInputV3 {
    pub argument_ordinal: u16,
    pub source_role_id: u16,
    pub physical_name: String,
    pub value: BoundProtocolValueV3,
}

#[derive(Clone, Debug, PartialEq, Eq)]
pub struct BoundProtocolActionInputV3 {
    pub index_sha256: String,
    pub artifact_root_sha256: String,
    pub mode_id_sha256: String,
    pub executable_mode_root_sha256: String,
    pub payload_root_sha256: String,
    pub effect_law_id_sha256: String,
    pub action_class_root_sha256: String,
    pub request_view_sha256: String,
    pub mapping_sha256: String,
    pub capability_id: u16,
    pub capability_kind: RuntimeCapabilityKindV3,
    pub physical_symbol: String,
    pub arguments: Vec<BoundProtocolArgumentInputV3>,
}

#[derive(Clone, Copy, Debug, PartialEq, Eq, Structural)]
pub enum BoundProtocolActionErrorV3 {
    InvalidCommitment,
    InvalidPhysicalSymbol,
    InvalidArgument,
    Serialization,
}

// ---------------------------------------------------------------- names and commitments

/// Bytes of a physical name: ASCII letters and digits, `_`, `-`, `.`, `/`, `:`.
pub open spec fn is_name_byte(b: u8) -> bool {
    is_alnum_byte(b) || b == 0x5f || b == 0x2d || b == 0x2e || b == 0x2f || b == 0x3a
}

/// A physical name: 1 to 128 bytes, each a name byte.
pub open spec fn physical_name_ok(s: Seq<char>) -> bool {
    let b = utf8(s);
    &&& b.len() > 0
    &&& b.len() <= 128
    &&& forall|i: int| 0 <= i < b.len() ==> #[trigger] is_name_byte(b[i])
}

pub fn valid_physical_name(value: &str) -> (r: bool)
    ensures
        r == physical_name_ok(value@),
{
    let b = value.as_bytes();
    if b.len() == 0 || b.len() > 128 {
        return false;
    }
    let mut i: usize = 0;
    while i < b.len()
        invariant
            i <= b@.len(),
            b@ == utf8(value@),
            forall|k: int| 0 <= k < i ==> #[trigger] is_name_byte(b@[k]),
        decreases b@.len() - i,
    {
        let c = b[i];
        if !(alnum_byte(c) || c == 0x5f || c == 0x2d || c == 0x2e || c == 0x2f || c == 0x3a) {
            assert(!is_name_byte(b@[i as int]));
            return false;
        }
        i = i + 1;
    }
    true
}

/// Every commitment of an input is a non-zero digest.
pub open spec fn commitments_ok(i: BoundProtocolActionInputV3) -> bool {
    &&& is_nonzero_sha256_text(utf8(i.index_sha256@))
    &&& is_nonzero_sha256_text(utf8(i.artifact_root_sha256@))
    &&& is_nonzero_sha256_text(utf8(i.mode_id_sha256@))
    &&& is_nonzero_sha256_text(utf8(i.executable_mode_root_sha256@))
    &&& is_nonzero_sha256_text(utf8(i.payload_root_sha256@))
    &&& is_nonzero_sha256_text(utf8(i.effect_law_id_sha256@))
    &&& is_nonzero_sha256_text(utf8(i.action_class_root_sha256@))
    &&& is_nonzero_sha256_text(utf8(i.request_view_sha256@))
    &&& is_nonzero_sha256_text(utf8(i.mapping_sha256@))
}

// ---------------------------------------------------------------- argument order

/// Puts an argument after every argument whose ordinal is not greater.
pub open spec fn insert_by_ordinal(s: Seq<BoundProtocolArgumentInputV3>, x: BoundProtocolArgumentInputV3) -> Seq<BoundProtocolArgumentInputV3>
    decreases s.len(),
{
    if s.len() == 0 {
        seq![x]
    } else if x.argument_ordinal < s[0].argument_ordinal {
        seq![x] + s
    } else {
        seq![s[0]] + insert_by_ordinal(s.subrange(1, s.len() as int), x)
    }
}

/// The arguments by ordinal; equal ordinals keep their order.
pub open spec fn sort_by_ordinal(s: Seq<BoundProtocolArgumentInputV3>) -> Seq<BoundProtocolArgumentInputV3>
    decreases s.len(),
{
    if s.len() == 0 { s } else { insert_by_ordinal(sort_by_ordinal(s.drop_last()), s.last()) }
}

proof fn lemma_insert_by_ordinal_at(s: Seq<BoundProtocolArgumentInputV3>, x: BoundProtocolArgumentInputV3, p: int)
    requires
        0 <= p <= s.len(),
        forall|k: int| 0 <= k < p ==> !(x.argument_ordinal < (#[trigger] s[k]).argument_ordinal),
        p == s.len() || x.argument_ordinal < s[p].argument_ordinal,
    ensures
        insert_by_ordinal(s, x) == s.insert(p, x),
    decreases s.len(),
{
    if s.len() == 0 {
        assert(s.insert(p, x) =~= seq![x]);
    } else if p == 0 {
        assert(s.insert(0, x) =~= seq![x] + s);
    } else {
        let t = s.subrange(1, s.len() as int);
        assert forall|k: int| 0 <= k < p - 1 implies !(x.argument_ordinal < (#[trigger] t[k]).argument_ordinal) by {
            assert(t[k] == s[k + 1]);
        }
        if p - 1 < t.len() {
            assert(t[p - 1] == s[p]);
        }
        assert(!(x.argument_ordinal < s[0].argument_ordinal));
        lemma_insert_by_ordinal_at(t, x, p - 1);
        assert(s.insert(p, x) =~= seq![s[0]] + t.insert(p - 1, x));
    }
}

proof fn lemma_sort_by_ordinal_len(s: Seq<BoundProtocolArgumentInputV3>)
    ensures
        sort_by_ordinal(s).len() == s.len(),
    decreases s.len(),
{
    if s.len() > 0 {
        lemma_sort_by_ordinal_len(s.drop_last());
        lemma_insert_by_ordinal_len(sort_by_ordinal(s.drop_last()), s.last());
    }
}

proof fn lemma_insert_by_ordinal_len(s: Seq<BoundProtocolArgumentInputV3>, x: BoundProtocolArgumentInputV3)
    ensures
        insert_by_ordinal(s, x).len() == s.len() + 1,
    decreases s.len(),
{
    if s.len() > 0 && !(x.argument_ordinal < s[0].argument_ordinal) {
        lemma_insert_by_ordinal_len(s.subrange(1, s.len() as int), x);
    }
}

fn sort_arguments_by_ordinal(v: Vec<BoundProtocolArgumentInputV3>) -> (r: Vec<BoundProtocolArgumentInputV3>)
    ensures
        r@ == sort_by_ordinal(v@),
{
    let ghost all = v@;
    let n = v.len();
    let mut rest = v;
    let mut out: Vec<BoundProtocolArgumentInputV3> = Vec::new();
    let mut i: usize = 0;
    while rest.len() > 0
        invariant
            all.len() == n,
            i + rest@.len() == all.len(),
            rest@ == all.subrange(i as int, all.len() as int),
            out@ == sort_by_ordinal(all.take(i as int)),
        decreases rest@.len(),
    {
        let x = rest.remove(0);
        assert(x == all[i as int]);
        assert(rest@ =~= all.subrange(i + 1, all.len() as int));
        let mut p: usize = 0;
        while p < out.len() && !(x.argument_ordinal < out[p].argument_ordinal)
            invariant
                p <= out@.len(),
                forall|k: int| 0 <= k < p ==> !(x.argument_ordinal < (#[trigger] out@[k]).argument_ordinal),
            decreases out@.len() - p,
        {
            p = p + 1;
        }
        proof {
            lemma_insert_by_ordinal_at(out@, x, p as int);
            assert(all.take(i + 1).drop_last() =~= all.take(i as int));
            assert(all.take(i + 1).last() == x);
        }
        out.insert(p, x);
        i = i + 1;
    }
    assert(all.take(all.len() as int) =~= all);
    out
}

/// After ordering, the arguments are numbered 0, 1, 2, .. under valid names.
pub open spec fn arguments_numbered(s: Seq<BoundProtocolArgumentInputV3>) -> bool {
    forall|i: int| 0 <= i < s.len() ==> (#[trigger] s[i]).argument_ordinal == i && physical_name_ok(s[i].physical_name@)
}

/// No two neighbours share a source role or a physical name.
pub open spec fn neighbours_distinct(s: Seq<BoundProtocolArgumentInputV3>) -> bool {
    forall|i: int| 0 <= i && i + 1 < s.len() ==> #[trigger] neighbours_differ(s, i)
}

pub open spec fn neighbours_differ(s: Seq<BoundProtocolArgumentInputV3>, i: int) -> bool {
    s[i].source_role_id != s[i + 1].source_role_id && s[i].physical_name@ != s[i + 1].physical_name@
}

/// Why an action input is refused, if it is, in the order of the checks.
pub open spec fn action_input_error(i: BoundProtocolActionInputV3) -> Option<BoundProtocolActionErrorV3> {
    let sorted = sort_by_ordinal(i.arguments@);
    if !commitments_ok(i) {
        Some(BoundProtocolActionErrorV3::InvalidCommitment)
    } else if !physical_name_ok(i.physical_symbol@) {
        Some(BoundProtocolActionErrorV3::InvalidPhysicalSymbol)
    } else if i.arguments@.len() == 0 || i.arguments@.len() > MAX_BOUND_PROTOCOL_ARGUMENTS_V3 {
        Some(BoundProtocolActionErrorV3::InvalidArgument)
    } else if !arguments_numbered(sorted) || !neighbours_distinct(sorted) {
        Some(BoundProtocolActionErrorV3::InvalidArgument)
    } else {
        None
    }
}

// ---------------------------------------------------------------- digests

/// The JSON of an argument in the semantic action: ordinal, source role, value.
pub open spec fn semantic_argument_json(a: BoundProtocolArgumentV3) -> Seq<u8> {
    object(seq![("argument_ordinal"@, a.argument_ordinal.json())].push(("source_role_id"@, a.source_role_id.json()))
        .push(("value"@, a.value.json())))
}

/// The JSON of an argument in the physical action: ordinal, physical name, value.
pub open spec fn physical_argument_json(a: BoundProtocolArgumentV3) -> Seq<u8> {
    object(seq![("argument_ordinal"@, a.argument_ordinal.json())].push(("physical_name"@, json_str(a.physical_name@)))
        .push(("value"@, a.value.json())))
}

pub open spec fn semantic_arguments_json(s: Seq<BoundProtocolArgumentV3>) -> Seq<u8> {
    tuple(s.map_values(|a: BoundProtocolArgumentV3| semantic_argument_json(a)))
}

pub open spec fn physical_arguments_json(s: Seq<BoundProtocolArgumentV3>) -> Seq<u8> {
    tuple(s.map_values(|a: BoundProtocolArgumentV3| physical_argument_json(a)))
}

/// The semantic action: the law, the action class, the capability kind and
/// the arguments by source role.
pub open spec fn semantic_action_root(law: Seq<char>, class: Seq<char>, kind: RuntimeCapabilityKindV3, args: Seq<BoundProtocolArgumentV3>) -> Seq<u8> {
    json_identity(tuple(seq![json_str("nando.bound-protocol-semantic-action.v3"@)].push(json_str(law)).push(json_str(class))
        .push(kind.json()).push(semantic_arguments_json(args))))
}

/// The physical action: the semantic action, the kind, the physical symbol
/// and the arguments by physical name.
pub open spec fn physical_action_root(semantic: Seq<char>, kind: RuntimeCapabilityKindV3, symbol: Seq<char>, args: Seq<BoundProtocolArgumentV3>) -> Seq<u8> {
    json_identity(tuple(seq![json_str("nando.bound-protocol-physical-action.v3"@)].push(json_str(semantic)).push(kind.json())
        .push(json_str(symbol)).push(physical_arguments_json(args))))
}

/// The derivation: the schema, the roots the action came from, the
/// capability and the physical action.
pub open spec fn derivation_root(i: BoundProtocolActionInputV3, physical: Seq<char>) -> Seq<u8> {
    json_identity(tuple(seq![json_str(BOUND_PROTOCOL_ACTION_SCHEMA_V3@)].push(json_str(i.index_sha256@))
        .push(json_str(i.artifact_root_sha256@)).push(json_str(i.mode_id_sha256@)).push(json_str(i.executable_mode_root_sha256@))
        .push(json_str(i.payload_root_sha256@)).push(json_str(i.request_view_sha256@)).push(json_str(i.mapping_sha256@))
        .push(i.capability_id.json()).push(json_str(physical))))
}

/// Appends an item already in JSON form to a tuple.
pub(crate) fn write_item_bytes(out: &mut Vec<u8>, st: TupleState, bytes: &Vec<u8>) -> (r: TupleState)
    requires
        tuple_open(old(out)@, st),
    ensures
        r.start@ == st.start@,
        r.items@ == st.items@.push(bytes@),
        tuple_open(final(out)@, r),
{
    if !st.empty {
        out.push(0x2c);
    }
    let mut i: usize = 0;
    let ghost before = out@;
    while i < bytes.len()
        invariant
            i <= bytes@.len(),
            out@ == before + bytes@.take(i as int),
        decreases bytes@.len() - i,
    {
        out.push(bytes[i]);
        assert(bytes@.take(i + 1) =~= bytes@.take(i as int).push(bytes@[i as int]));
        i = i + 1;
    }
    assert(bytes@.take(bytes@.len() as int) =~= bytes@);
    let ghost items = st.items@.push(bytes@);
    assert(items.drop_last() =~= st.items@);
    assert(out@ =~= st.start@ + seq![0x5bu8] + joined(items));
    TupleState { empty: false, start: st.start, items: Ghost(items) }
}

fn semantic_arguments_bytes(args: &Vec<BoundProtocolArgumentV3>) -> (r: Vec<u8>)
    ensures
        r@ == semantic_arguments_json(args@),
{
    let mut out: Vec<u8> = Vec::new();
    let mut st = begin_tuple(&mut out);
    let mut i: usize = 0;
    assert(args@.take(0).map_values(|a: BoundProtocolArgumentV3| semantic_argument_json(a)) =~= Seq::<Seq<u8>>::empty());
    while i < args.len()
        invariant
            i <= args@.len(),
            st.start@ == Seq::<u8>::empty(),
            st.items@ == args@.take(i as int).map_values(|a: BoundProtocolArgumentV3| semantic_argument_json(a)),
            tuple_open(out@, st),
        decreases args@.len() - i,
    {
        let a = &args[i];
        let mut item: Vec<u8> = Vec::new();
        let o = begin_object(&mut item);
        let o = write_member(&mut item, o, "argument_ordinal", &a.argument_ordinal);
        let o = write_member(&mut item, o, "source_role_id", &a.source_role_id);
        let o = write_member(&mut item, o, "value", &a.value);
        end_object(&mut item, o);
        assert(item@ =~= semantic_argument_json(*a));
        st = write_item_bytes(&mut out, st, &item);
        assert(args@.take(i + 1).map_values(|a: BoundProtocolArgumentV3| semantic_argument_json(a))
            =~= args@.take(i as int).map_values(|a: BoundProtocolArgumentV3| semantic_argument_json(a)).push(semantic_argument_json(*a)));
        i = i + 1;
    }
    assert(args@.take(args@.len() as int) =~= args@);
    end_tuple(&mut out, st);
    assert(out@ =~= semantic_arguments_json(args@));
    out
}

fn physical_arguments_bytes(args: &Vec<BoundProtocolArgumentV3>) -> (r: Vec<u8>)
    ensures
        r@ == physical_arguments_json(args@),
{
    let mut out: Vec<u8> = Vec::new();
    let mut st = begin_tuple(&mut out);
    let mut i: usize = 0;
    assert(args@.take(0).map_values(|a: BoundProtocolArgumentV3| physical_argument_json(a)) =~= Seq::<Seq<u8>>::empty());
    while i < args.len()
        invariant
            i <= args@.len(),
            st.start@ == Seq::<u8>::empty(),
            st.items@ == args@.take(i as int).map_values(|a: BoundProtocolArgumentV3| physical_argument_json(a)),
            tuple_open(out@, st),
        decreases args@.len() - i,
    {
        let a = &args[i];
        let mut item: Vec<u8> = Vec::new();
        let o = begin_object(&mut item);
        let o = write_member(&mut item, o, "argument_ordinal", &a.argument_ordinal);
        let o = write_member_str(&mut item, o, "physical_name", a.physical_name.as_str());
        let o = write_member(&mut item, o, "value", &a.value);
        end_object(&mut item, o);
        assert(item@ =~= physical_argument_json(*a));
        st = write_item_bytes(&mut out, st, &item);
        assert(args@.take(i + 1).map_values(|a: BoundProtocolArgumentV3| physical_argument_json(a))
            =~= args@.take(i as int).map_values(|a: BoundProtocolArgumentV3| physical_argument_json(a)).push(physical_argument_json(*a)));
        i = i + 1;
    }
    assert(args@.take(args@.len() as int) =~= args@);
    end_tuple(&mut out, st);
    assert(out@ =~= physical_arguments_json(args@));
    out
}

fn semantic_action_digest(law: &str, class: &str, kind: RuntimeCapabilityKindV3, args: &Vec<BoundProtocolArgumentV3>) -> (r: String)
    ensures
        utf8(r@) == semantic_action_root(law@, class@, kind, args@),
{
    let items = semantic_arguments_bytes(args);
    let mut out: Vec<u8> = Vec::new();
    let st = begin_tuple(&mut out);
    let st = write_item_str(&mut out, st, "nando.bound-protocol-semantic-action.v3");
    let st = write_item_str(&mut out, st, law);
    let st = write_item_str(&mut out, st, class);
    let st = write_item(&mut out, st, &kind);
    let st = write_item_bytes(&mut out, st, &items);
    end_tuple(&mut out, st);
    sha256_hex(out.as_slice())
}

fn physical_action_digest(semantic: &str, kind: RuntimeCapabilityKindV3, symbol: &str, args: &Vec<BoundProtocolArgumentV3>) -> (r: String)
    ensures
        utf8(r@) == physical_action_root(semantic@, kind, symbol@, args@),
{
    let items = physical_arguments_bytes(args);
    let mut out: Vec<u8> = Vec::new();
    let st = begin_tuple(&mut out);
    let st = write_item_str(&mut out, st, "nando.bound-protocol-physical-action.v3");
    let st = write_item_str(&mut out, st, semantic);
    let st = write_item(&mut out, st, &kind);
    let st = write_item_str(&mut out, st, symbol);
    let st = write_item_bytes(&mut out, st, &items);
    end_tuple(&mut out, st);
    sha256_hex(out.as_slice())
}

fn derivation_digest(i: &BoundProtocolActionInputV3, physical: &str) -> (r: String)
    ensures
        utf8(r@) == derivation_root(*i, physical@),
{
    let mut out: Vec<u8> = Vec::new();
    let st = begin_tuple(&mut out);
    let st = write_item_str(&mut out, st, BOUND_PROTOCOL_ACTION_SCHEMA_V3);
    let st = write_item_str(&mut out, st, i.index_sha256.as_str());
    let st = write_item_str(&mut out, st, i.artifact_root_sha256.as_str());
    let st = write_item_str(&mut out, st, i.mode_id_sha256.as_str());
    let st = write_item_str(&mut out, st, i.executable_mode_root_sha256.as_str());
    let st = write_item_str(&mut out, st, i.payload_root_sha256.as_str());
    let st = write_item_str(&mut out, st, i.request_view_sha256.as_str());
    let st = write_item_str(&mut out, st, i.mapping_sha256.as_str());
    let st = write_item(&mut out, st, &i.capability_id);
    let st = write_item_str(&mut out, st, physical);
    end_tuple(&mut out, st);
    sha256_hex(out.as_slice())
}

// ---------------------------------------------------------------- the builder

/// The argument an input argument becomes.
pub open spec fn argument_from(a: BoundProtocolArgumentInputV3) -> BoundProtocolArgumentV3 {
    BoundProtocolArgumentV3 {
        argument_ordinal: a.argument_ordinal,
        source_role_id: a.source_role_id,
        physical_name: a.physical_name,
        value: a.value,
    }
}

/// What an action built from an input holds: the input's roots and
/// capability, its arguments by ordinal, and the three digests.
pub open spec fn action_built(x: BoundProtocolActionV3, i: BoundProtocolActionInputV3) -> bool {
    &&& x.index_sha256 == i.index_sha256
    &&& x.artifact_root_sha256 == i.artifact_root_sha256
    &&& x.mode_id_sha256 == i.mode_id_sha256
    &&& x.executable_mode_root_sha256 == i.executable_mode_root_sha256
    &&& x.payload_root_sha256 == i.payload_root_sha256
    &&& x.effect_law_id_sha256 == i.effect_law_id_sha256
    &&& x.action_class_root_sha256 == i.action_class_root_sha256
    &&& x.request_view_sha256 == i.request_view_sha256
    &&& x.mapping_sha256 == i.mapping_sha256
    &&& x.capability_id == i.capability_id
    &&& x.capability_kind == i.capability_kind
    &&& x.physical_symbol == i.physical_symbol
    &&& x.arguments@ == sort_by_ordinal(i.arguments@).map_values(|a: BoundProtocolArgumentInputV3| argument_from(a))
    &&& utf8(x.semantic_action_sha256@) == semantic_action_root(
        i.effect_law_id_sha256@, i.action_class_root_sha256@, i.capability_kind, x.arguments@)
    &&& utf8(x.physical_action_sha256@) == physical_action_root(
        x.semantic_action_sha256@, i.capability_kind, i.physical_symbol@, x.arguments@)
    &&& utf8(x.derivation_sha256@) == derivation_root(i, x.physical_action_sha256@)
}

fn commitments_ok_exec(i: &BoundProtocolActionInputV3) -> (r: bool)
    ensures
        r == commitments_ok(*i),
{
    valid_nonzero_sha256(i.index_sha256.as_str())
        && valid_nonzero_sha256(i.artifact_root_sha256.as_str())
        && valid_nonzero_sha256(i.mode_id_sha256.as_str())
        && valid_nonzero_sha256(i.executable_mode_root_sha256.as_str())
        && valid_nonzero_sha256(i.payload_root_sha256.as_str())
        && valid_nonzero_sha256(i.effect_law_id_sha256.as_str())
        && valid_nonzero_sha256(i.action_class_root_sha256.as_str())
        && valid_nonzero_sha256(i.request_view_sha256.as_str())
        && valid_nonzero_sha256(i.mapping_sha256.as_str())
}

/// Checks the ordered arguments: numbered from zero under valid names, and
/// no neighbours sharing a source role or a name.
fn arguments_ok(s: &Vec<BoundProtocolArgumentInputV3>) -> (r: bool)
    ensures
        r == (arguments_numbered(s@) && neighbours_distinct(s@)),
{
    let mut i: usize = 0;
    while i < s.len()
        invariant
            i <= s@.len(),
            forall|k: int| 0 <= k < i ==> (#[trigger] s@[k]).argument_ordinal == k && physical_name_ok(s@[k].physical_name@),
        decreases s@.len() - i,
    {
        if s[i].argument_ordinal as usize != i || !valid_physical_name(s[i].physical_name.as_str()) {
            assert(!arguments_numbered(s@)) by {
                assert(!((s@[i as int]).argument_ordinal == i && physical_name_ok(s@[i as int].physical_name@)));
            }
            return false;
        }
        i = i + 1;
    }
    assert(arguments_numbered(s@));
    let mut j: usize = 1;
    while j < s.len()
        invariant
            1 <= j,
            j <= s@.len() || s@.len() == 0,
            forall|k: int| 0 <= k && k + 1 < j && k + 1 < s@.len() ==> #[trigger] neighbours_differ(s@, k),
        decreases s@.len() - j,
    {
        if s[j - 1].source_role_id == s[j].source_role_id || str_eq(s[j - 1].physical_name.as_str(), s[j].physical_name.as_str()) {
            assert(!neighbours_differ(s@, j - 1));
            return false;
        }
        j = j + 1;
    }
    assert forall|k: int| 0 <= k && k + 1 < s@.len() implies #[trigger] neighbours_differ(s@, k) by {
        assert(k + 1 < j);
    }
    true
}

/// The input fields other than the arguments are the same.
pub open spec fn same_heading(a: BoundProtocolActionInputV3, b: BoundProtocolActionInputV3) -> bool {
    &&& a.index_sha256 == b.index_sha256
    &&& a.artifact_root_sha256 == b.artifact_root_sha256
    &&& a.mode_id_sha256 == b.mode_id_sha256
    &&& a.executable_mode_root_sha256 == b.executable_mode_root_sha256
    &&& a.payload_root_sha256 == b.payload_root_sha256
    &&& a.effect_law_id_sha256 == b.effect_law_id_sha256
    &&& a.action_class_root_sha256 == b.action_class_root_sha256
    &&& a.request_view_sha256 == b.request_view_sha256
    &&& a.mapping_sha256 == b.mapping_sha256
    &&& a.capability_id == b.capability_id
    &&& a.capability_kind == b.capability_kind
    &&& a.physical_symbol == b.physical_symbol
}

/// Checks an action input, ordering its arguments by ordinal on the way.
fn validate_input(input: &mut BoundProtocolActionInputV3) -> (r: Result<(), BoundProtocolActionErrorV3>)
    ensures
        r == (match action_input_error(*old(input)) { Some(e) => Err(e), None => Ok(()) }),
        r is Ok ==> same_heading(*final(input), *old(input))
            && final(input).arguments@ == sort_by_ordinal(old(input).arguments@),
{
    if !commitments_ok_exec(input) {
        return Err(BoundProtocolActionErrorV3::InvalidCommitment);
    }
    if !valid_physical_name(input.physical_symbol.as_str()) {
        return Err(BoundProtocolActionErrorV3::InvalidPhysicalSymbol);
    }
    if input.arguments.len() == 0 || input.arguments.len() > MAX_BOUND_PROTOCOL_ARGUMENTS_V3 {
        return Err(BoundProtocolActionErrorV3::InvalidArgument);
    }
    let mut taken: Vec<BoundProtocolArgumentInputV3> = Vec::new();
    std::mem::swap(&mut taken, &mut input.arguments);
    let sorted = sort_arguments_by_ordinal(taken);
    if !arguments_ok(&sorted) {
        return Err(BoundProtocolActionErrorV3::InvalidArgument);
    }
    input.arguments = sorted;
    Ok(())
}

/// Binds a call: checks the input's commitments, its physical symbol and
/// its arguments (1 to 32, numbered from zero by ordinal, valid names, no
/// neighbours sharing a source role or a name), then seals the semantic
/// action, the physical action and the derivation.
pub fn build_bound_protocol_action_v3(input: BoundProtocolActionInputV3) -> (r: Result<BoundProtocolActionV3, BoundProtocolActionErrorV3>)
    ensures
        action_input_error(input) matches Some(e) ==> r == Err::<BoundProtocolActionV3, BoundProtocolActionErrorV3>(e),
        action_input_error(input) is None ==> (r matches Ok(x) && action_built(x, input)),
{
    let ghost orig = input;
    let mut input = input;
    match validate_input(&mut input) {
        Ok(()) => {},
        Err(e) => {
            return Err(e);
        },
    }
    let mut sorted: Vec<BoundProtocolArgumentInputV3> = Vec::new();
    std::mem::swap(&mut sorted, &mut input.arguments);
    let ghost sv = sorted@;
    let mut rest = sorted;
    let mut arguments: Vec<BoundProtocolArgumentV3> = Vec::new();
    let mut k: usize = 0;
    let n = rest.len();
    while rest.len() > 0
        invariant
            sv.len() == n,
            k + rest@.len() == n,
            rest@ == sv.subrange(k as int, n as int),
            arguments@ == sv.take(k as int).map_values(|a: BoundProtocolArgumentInputV3| argument_from(a)),
        decreases rest@.len(),
    {
        let a = rest.remove(0);
        assert(a == sv[k as int]);
        assert(rest@ =~= sv.subrange(k + 1, n as int));
        arguments.push(BoundProtocolArgumentV3 {
            argument_ordinal: a.argument_ordinal,
            source_role_id: a.source_role_id,
            physical_name: a.physical_name,
            value: a.value,
        });
        assert(arguments@ =~= sv.take(k + 1).map_values(|a: BoundProtocolArgumentInputV3| argument_from(a)));
        k = k + 1;
    }
    assert(sv.take(n as int) =~= sv);
    let semantic = semantic_action_digest(
        input.effect_law_id_sha256.as_str(), input.action_class_root_sha256.as_str(), input.capability_kind, &arguments);
    let physical = physical_action_digest(semantic.as_str(), input.capability_kind, input.physical_symbol.as_str(), &arguments);
    let derivation = derivation_digest(&input, physical.as_str());
    Ok(BoundProtocolActionV3 {
        index_sha256: input.index_sha256,
        artifact_root_sha256: input.artifact_root_sha256,
        mode_id_sha256: input.mode_id_sha256,
        executable_mode_root_sha256: input.executable_mode_root_sha256,
        payload_root_sha256: input.payload_root_sha256,
        effect_law_id_sha256: input.effect_law_id_sha256,
        action_class_root_sha256: input.action_class_root_sha256,
        request_view_sha256: input.request_view_sha256,
        mapping_sha256: input.mapping_sha256,
        capability_id: input.capability_id,
        capability_kind: input.capability_kind,
        physical_symbol: input.physical_symbol,
        arguments,
        semantic_action_sha256: semantic,
        physical_action_sha256: physical,
        derivation_sha256: derivation,
    })
}

// ---------------------------------------------------------------- the order of arguments

/// The arguments never decrease in ordinal.
pub open spec fn ordinals_nondecreasing(s: Seq<BoundProtocolArgumentInputV3>) -> bool {
    forall|i: int, j: int| 0 <= i < j < s.len() ==> (#[trigger] s[i]).argument_ordinal <= (#[trigger] s[j]).argument_ordinal
}

proof fn lemma_insert_by_ordinal_multiset(s: Seq<BoundProtocolArgumentInputV3>, x: BoundProtocolArgumentInputV3)
    ensures
        insert_by_ordinal(s, x).to_multiset() =~= s.to_multiset().insert(x),
    decreases s.len(),
{
    broadcast use vstd::seq_lib::group_to_multiset_ensures, vstd::multiset::group_multiset_axioms;
    if s.len() == 0 {
        assert(seq![x] =~= Seq::<BoundProtocolArgumentInputV3>::empty().push(x));
    } else if x.argument_ordinal < s[0].argument_ordinal {
        assert(seq![x] + s =~= s.insert(0, x));
    } else {
        let rest = s.subrange(1, s.len() as int);
        lemma_insert_by_ordinal_multiset(rest, x);
        let r = insert_by_ordinal(rest, x);
        assert(seq![s[0]] + r =~= r.insert(0, s[0]));
        assert(s =~= rest.insert(0, s[0]));
    }
}

proof fn lemma_sort_by_ordinal_multiset(s: Seq<BoundProtocolArgumentInputV3>)
    ensures
        sort_by_ordinal(s).to_multiset() =~= s.to_multiset(),
    decreases s.len(),
{
    broadcast use vstd::seq_lib::group_to_multiset_ensures, vstd::multiset::group_multiset_axioms;
    if s.len() > 0 {
        lemma_sort_by_ordinal_multiset(s.drop_last());
        lemma_insert_by_ordinal_multiset(sort_by_ordinal(s.drop_last()), s.last());
        assert(s =~= s.drop_last().push(s.last()));
    }
}

proof fn lemma_insert_by_ordinal_sorted(s: Seq<BoundProtocolArgumentInputV3>, x: BoundProtocolArgumentInputV3)
    requires
        ordinals_nondecreasing(s),
    ensures
        ordinals_nondecreasing(insert_by_ordinal(s, x)),
    decreases s.len(),
{
    broadcast use vstd::seq_lib::group_to_multiset_ensures, vstd::multiset::group_multiset_axioms;
    if s.len() == 0 {
    } else if x.argument_ordinal < s[0].argument_ordinal {
        let t = seq![x] + s;
        assert forall|i: int, j: int| 0 <= i < j < t.len() implies (#[trigger] t[i]).argument_ordinal <= (#[trigger] t[j]).argument_ordinal by {
            if i == 0 {
                assert(t[j] == s[j - 1]);
                assert(s[0].argument_ordinal <= s[j - 1].argument_ordinal);
            } else {
                assert(t[i] == s[i - 1] && t[j] == s[j - 1]);
            }
        }
    } else {
        let rest = s.subrange(1, s.len() as int);
        assert forall|i: int, j: int| 0 <= i < j < rest.len() implies (#[trigger] rest[i]).argument_ordinal <= (#[trigger] rest[j]).argument_ordinal by {
            assert(rest[i] == s[i + 1] && rest[j] == s[j + 1]);
        }
        lemma_insert_by_ordinal_sorted(rest, x);
        lemma_insert_by_ordinal_multiset(rest, x);
        let r = insert_by_ordinal(rest, x);
        let t = seq![s[0]] + r;
        assert forall|i: int, j: int| 0 <= i < j < t.len() implies (#[trigger] t[i]).argument_ordinal <= (#[trigger] t[j]).argument_ordinal by {
            if i == 0 {
                let e = t[j];
                assert(e == r[j - 1]);
                assert(r.contains(e));
                assert(r.to_multiset().count(e) > 0);
                if e != x {
                    assert(rest.to_multiset().count(e) > 0);
                    assert(rest.contains(e));
                    let k = choose|k: int| 0 <= k < rest.len() && rest[k] == e;
                    assert(s[k + 1] == e);
                    assert(s[0].argument_ordinal <= s[k + 1].argument_ordinal);
                }
            } else {
                assert(t[i] == r[i - 1] && t[j] == r[j - 1]);
            }
        }
    }
}

proof fn lemma_sort_by_ordinal_sorted(s: Seq<BoundProtocolArgumentInputV3>)
    ensures
        ordinals_nondecreasing(sort_by_ordinal(s)),
    decreases s.len(),
{
    if s.len() > 0 {
        lemma_sort_by_ordinal_sorted(s.drop_last());
        lemma_insert_by_ordinal_sorted(sort_by_ordinal(s.drop_last()), s.last());
    }
}

/// A list in ordinal order with the same members as a list numbered from
/// zero is that list.
proof fn lemma_sorted_matches_numbered(t: Seq<BoundProtocolArgumentInputV3>, u: Seq<BoundProtocolArgumentInputV3>)
    requires
        ordinals_nondecreasing(t),
        forall|i: int| 0 <= i < u.len() ==> (#[trigger] u[i]).argument_ordinal == i,
        t.to_multiset() =~= u.to_multiset(),
    ensures
        t == u,
    decreases u.len(),
{
    broadcast use vstd::seq_lib::group_to_multiset_ensures, vstd::multiset::group_multiset_axioms;
    assert(t.to_multiset().len() == u.to_multiset().len());
    assert(t.len() == u.len());
    if u.len() == 0 {
        assert(t =~= u);
    } else {
        let n = u.len() as int;
        let a = t[n - 1];
        let b = u[n - 1];
        assert(t.contains(a));
        assert(u.to_multiset().count(a) > 0);
        assert(u.contains(a));
        let ka = choose|k: int| 0 <= k < n && u[k] == a;
        assert(u.contains(b));
        assert(t.to_multiset().count(b) > 0);
        assert(t.contains(b));
        let kb = choose|k: int| 0 <= k < n && t[k] == b;
        if kb < n - 1 {
            assert(t[kb].argument_ordinal <= t[n - 1].argument_ordinal);
        }
        assert(a.argument_ordinal == ka);
        assert(b.argument_ordinal == n - 1);
        assert(ka == n - 1);
        assert(a == b);
        let t1 = t.drop_last();
        let u1 = u.drop_last();
        assert(t1 =~= t.remove(n - 1));
        assert(u1 =~= u.remove(n - 1));
        assert(t1.to_multiset() =~= u1.to_multiset());
        assert forall|i: int, j: int| 0 <= i < j < t1.len() implies (#[trigger] t1[i]).argument_ordinal <= (#[trigger] t1[j]).argument_ordinal by {
            assert(t1[i] == t[i] && t1[j] == t[j]);
        }
        assert forall|i: int| 0 <= i < u1.len() implies (#[trigger] u1[i]).argument_ordinal == i by {
            assert(u1[i] == u[i]);
        }
        lemma_sorted_matches_numbered(t1, u1);
        assert(t =~= t1.push(a));
        assert(u =~= u1.push(b));
    }
}

/// An accepted input stays accepted when its arguments are given in another
/// order, and its arguments sort the same.
proof fn lemma_accepted_input_reordered(a: BoundProtocolActionInputV3, b: BoundProtocolActionInputV3)
    requires
        same_heading(a, b),
        a.arguments@.to_multiset() =~= b.arguments@.to_multiset(),
        action_input_error(a) is None,
    ensures
        action_input_error(b) is None,
        sort_by_ordinal(a.arguments@) == sort_by_ordinal(b.arguments@),
{
    broadcast use vstd::seq_lib::group_to_multiset_ensures;
    let sa = sort_by_ordinal(a.arguments@);
    let sb = sort_by_ordinal(b.arguments@);
    lemma_sort_by_ordinal_multiset(a.arguments@);
    lemma_sort_by_ordinal_multiset(b.arguments@);
    lemma_sort_by_ordinal_sorted(b.arguments@);
    assert forall|i: int| 0 <= i < sa.len() implies (#[trigger] sa[i]).argument_ordinal == i by {}
    lemma_sorted_matches_numbered(sb, sa);
    assert(a.arguments@.len() == b.arguments@.len()) by {
        assert(a.arguments@.len() == a.arguments@.to_multiset().len());
        assert(b.arguments@.len() == b.arguments@.to_multiset().len());
    }
}

/// Whether an action input is refused, and with which error, does not
/// depend on the order in which its arguments are given.
pub proof fn lemma_action_error_ignores_argument_order(a: BoundProtocolActionInputV3, b: BoundProtocolActionInputV3)
    requires
        same_heading(a, b),
        a.arguments@.to_multiset() =~= b.arguments@.to_multiset(),
    ensures
        action_input_error(a) == action_input_error(b),
{
    broadcast use vstd::seq_lib::group_to_multiset_ensures;
    assert(a.arguments@.len() == b.arguments@.len()) by {
        assert(a.arguments@.len() == a.arguments@.to_multiset().len());
        assert(b.arguments@.len() == b.arguments@.to_multiset().len());
    }
    if action_input_error(a) is None {
        lemma_accepted_input_reordered(a, b);
    } else if action_input_error(b) is None {
        lemma_accepted_input_reordered(b, a);
    }
}

/// A bound action does not depend on the order in which its arguments are
/// given: two inputs with the same roots and the same arguments in any
/// order are accepted or refused together, with the same error, and when
/// accepted build the same arguments and digests.
pub proof fn lemma_action_ignores_argument_order(
    a: BoundProtocolActionInputV3, b: BoundProtocolActionInputV3, x: BoundProtocolActionV3, y: BoundProtocolActionV3,
)
    requires
        same_heading(a, b),
        a.arguments@.to_multiset() =~= b.arguments@.to_multiset(),
        action_input_error(a) is None,
        action_built(x, a),
        action_built(y, b),
    ensures
        action_input_error(b) is None,
        sort_by_ordinal(a.arguments@) == sort_by_ordinal(b.arguments@),
        x.arguments@ == y.arguments@,
        x.semantic_action_sha256@ == y.semantic_action_sha256@,
        x.physical_action_sha256@ == y.physical_action_sha256@,
        x.derivation_sha256@ == y.derivation_sha256@,
{
    lemma_accepted_input_reordered(a, b);
    lemma_utf8_injective(x.semantic_action_sha256@, y.semantic_action_sha256@);
    lemma_utf8_injective(x.physical_action_sha256@, y.physical_action_sha256@);
    lemma_utf8_injective(x.derivation_sha256@, y.derivation_sha256@);
}

// ---------------------------------------------------------------- accessors

impl BoundProtocolArgumentV3 {
    pub fn argument_ordinal(&self) -> (r: u16)
        ensures
            r == self.argument_ordinal,
    {
        self.argument_ordinal
    }

    pub fn source_role_id(&self) -> (r: u16)
        ensures
            r == self.source_role_id,
    {
        self.source_role_id
    }

    pub fn physical_name(&self) -> (r: &str)
        ensures
            r@ == self.physical_name@,
    {
        self.physical_name.as_str()
    }

    pub fn value(&self) -> (r: &BoundProtocolValueV3)
        ensures
            *r == self.value,
    {
        &self.value
    }
}

impl BoundProtocolActionV3 {
    pub fn index_sha256(&self) -> (r: &str)
        ensures
            r@ == self.index_sha256@,
    {
        self.index_sha256.as_str()
    }

    pub fn artifact_root_sha256(&self) -> (r: &str)
        ensures
            r@ == self.artifact_root_sha256@,
    {
        self.artifact_root_sha256.as_str()
    }

    pub fn mode_id_sha256(&self) -> (r: &str)
        ensures
            r@ == self.mode_id_sha256@,
    {
        self.mode_id_sha256.as_str()
    }

    pub fn executable_mode_root_sha256(&self) -> (r: &str)
        ensures
            r@ == self.executable_mode_root_sha256@,
    {
        self.executable_mode_root_sha256.as_str()
    }

    pub fn payload_root_sha256(&self) -> (r: &str)
        ensures
            r@ == self.payload_root_sha256@,
    {
        self.payload_root_sha256.as_str()
    }

    pub fn effect_law_id_sha256(&self) -> (r: &str)
        ensures
            r@ == self.effect_law_id_sha256@,
    {
        self.effect_law_id_sha256.as_str()
    }

    pub fn action_class_root_sha256(&self) -> (r: &str)
        ensures
            r@ == self.action_class_root_sha256@,
    {
        self.action_class_root_sha256.as_str()
    }

    pub fn request_view_sha256(&self) -> (r: &str)
        ensures
            r@ == self.request_view_sha256@,
    {
        self.request_view_sha256.as_str()
    }

    pub fn mapping_sha256(&self) -> (r: &str)
        ensures
            r@ == self.mapping_sha256@,
    {
        self.mapping_sha256.as_str()
    }

    pub fn capability_id(&self) -> (r: u16)
        ensures
            r == self.capability_id,
    {
        self.capability_id
    }

    pub fn capability_kind(&self) -> (r: RuntimeCapabilityKindV3)
        ensures
            r == self.capability_kind,
    {
        self.capability_kind
    }

    pub fn physical_symbol(&self) -> (r: &str)
        ensures
            r@ == self.physical_symbol@,
    {
        self.physical_symbol.as_str()
    }

    pub fn arguments(&self) -> (r: &[BoundProtocolArgumentV3])
        ensures
            r@ == self.arguments@,
    {
        self.arguments.as_slice()
    }

    pub fn semantic_action_sha256(&self) -> (r: &str)
        ensures
            r@ == self.semantic_action_sha256@,
    {
        self.semantic_action_sha256.as_str()
    }

    pub fn physical_action_sha256(&self) -> (r: &str)
        ensures
            r@ == self.physical_action_sha256@,
    {
        self.physical_action_sha256.as_str()
    }

    pub fn derivation_sha256(&self) -> (r: &str)
        ensures
            r@ == self.derivation_sha256@,
    {
        self.derivation_sha256.as_str()
    }

    /// A bound action never carries authority to execute.
    pub fn execution_authority(&self) -> (r: bool)
        ensures
            !r,
    {
        false
    }
}

} // verus!
