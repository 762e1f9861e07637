//! Bound protocol programs: the typed program compiled from a bound action
//! of a function capability, with a bounded value size per argument and a
//! bounded output.
use vstd::prelude::*;
use crate::text::utf8;
use crate::json::{
    json_str, object, begin_object, write_member, write_member_str, end_object, json_identity,
    tuple, tuple_open, begin_tuple, write_item, write_item_str, end_tuple, CanonicalJson,
};
use crate::digest::sha256_hex;
use crate::structural_context::RuntimeCapabilityKindV3;
use crate::bound_protocol_action::{BoundProtocolActionV3, BoundProtocolArgumentV3, BoundProtocolValueV3, write_item_bytes};

verus! {

pub const BOUND_PROTOCOL_PROGRAM_SCHEMA_V3: &'static str = "nando.bound-protocol-program.v3";
pub const BOUND_PROTOCOL_PROGRAM_MAX_OUTPUT_BYTES_V3: usize = 16384;
pub const BOUND_PROTOCOL_PROGRAM_MAX_BYTECODE_BYTES_V3: usize = 32768;
pub const BOUND_PROTOCOL_PROGRAM_MAX_VALUE_BYTES_V3: usize = 16384;

pub const PROTOCOL_VM_MAGIC_V3: [u8; 8] = [0x4e, 0x57, 0x56, 0x4d, 0x46, 0x35, 0x45, 0x33];
pub const PROTOCOL_VM_VERSION_V3: u16 = 3;
pub const PROTOCOL_VM_HEADER_BYTES_V3: usize = 80;
pub const PROTOCOL_VM_OPCODE_BEGIN_CALL_V3: u8 = 1;
pub const PROTOCOL_VM_OPCODE_ARGUMENT_STRING_V3: u8 = 2;
pub const PROTOCOL_VM_OPCODE_ARGUMENT_INTEGER_V3: u8 = 3;
pub const PROTOCOL_VM_OPCODE_ARGUMENT_BOOLEAN_V3: u8 = 4;
pub const PROTOCOL_VM_OPCODE_ARGUMENT_IDENTIFIER_V3: u8 = 5;
pub const PROTOCOL_VM_OPCODE_EMIT_V3: u8 = 255;

#[derive(Clone, Debug, PartialEq, Eq)]
pub struct BoundProtocolProgramArgumentV3 {
    pub argument_ordinal: u16,
    pub source_role_id: u16,
    pub physical_name: String,
    pub value: BoundProtocolValueV3,
}

/// A typed actor program owned by one request; built only by compiling a
/// bound action.
#[derive(Clone, Debug, PartialEq, Eq)]
pub struct BoundProtocolProgramV3 {
    pub schema: &'static str,
    pub program_sha256: String,
    pub action_derivation_sha256: String,
    pub physical_action_sha256: String,
    pub mode_id_sha256: String,
    pub request_view_sha256: String,
    pub mapping_sha256: String,
    pub capability_kind: RuntimeCapabilityKindV3,
    pub physical_symbol: String,
    pub arguments: Vec<BoundProtocolProgramArgumentV3>,
    pub max_output_bytes: usize,
}

#[derive(Clone, Copy, Debug, PartialEq, Eq, Structural)]
pub enum BoundProtocolProgramErrorV3 {
    UnsupportedCapability,
    ValueBudget,
    Serialization,
}

/// The size of a value: the bytes of a text, eight for an integer, one for a boolean.
pub open spec fn value_size(v: BoundProtocolValueV3) -> int {
    match v {
        BoundProtocolValueV3::String(s) => utf8(s@).len() as int,
        BoundProtocolValueV3::Identifier(s) => utf8(s@).len() as int,
        BoundProtocolValueV3::Integer(_) => 8,
        BoundProtocolValueV3::Boolean(_) => 1,
    }
}

pub fn value_bytes(value: &BoundProtocolValueV3) -> (r: usize)
    ensures
        r == value_size(*value),
{
    match value {
        BoundProtocolValueV3::String(s) => s.as_str().as_bytes().len(),
        BoundProtocolValueV3::Identifier(s) => s.as_str().as_bytes().len(),
        BoundProtocolValueV3::Integer(_) => 8,
        BoundProtocolValueV3::Boolean(_) => 1,
    }
}

/// The argument a bound argument becomes in the program.
pub open spec fn program_argument_of(a: BoundProtocolArgumentV3) -> BoundProtocolProgramArgumentV3 {
    BoundProtocolProgramArgumentV3 {
        argument_ordinal: a.argument_ordinal,
        source_role_id: a.source_role_id,
        physical_name: a.physical_name,
        value: a.value,
    }
}

/// The JSON of a program argument: ordinal, physical name, source role, value.
pub open spec fn program_argument_json(a: BoundProtocolProgramArgumentV3) -> Seq<u8> {
    object(seq![("argument_ordinal"@, a.argument_ordinal.json())].push(("physical_name"@, json_str(a.physical_name@)))
        .push(("source_role_id"@, a.source_role_id.json())).push(("value"@, a.value.json())))
}

pub open spec fn program_arguments_json(s: Seq<BoundProtocolProgramArgumentV3>) -> Seq<u8> {
    tuple(s.map_values(|a: BoundProtocolProgramArgumentV3| program_argument_json(a)))
}

/// The root of a program: the digest of its schema, the action's
/// derivation, physical action, mode, request view, mapping, kind and
/// symbol, the arguments and the output bound, as a JSON tuple.
pub open spec fn program_root(x: BoundProtocolActionV3, args: Seq<BoundProtocolProgramArgumentV3>) -> Seq<u8> {
    json_identity(tuple(seq![json_str(BOUND_PROTOCOL_PROGRAM_SCHEMA_V3@)].push(json_str(x.derivation_sha256@))
        .push(json_str(x.physical_action_sha256@)).push(json_str(x.mode_id_sha256@))
        .push(json_str(x.request_view_sha256@)).push(json_str(x.mapping_sha256@)).push(x.capability_kind.json())
        .push(json_str(x.physical_symbol@)).push(program_arguments_json(args))
        .push(BOUND_PROTOCOL_PROGRAM_MAX_OUTPUT_BYTES_V3.json())))
}

fn program_arguments_bytes(args: &Vec<BoundProtocolProgramArgumentV3>) -> (r: Vec<u8>)
    ensures
        r@ == program_arguments_json(args@),
{
    let mut out: Vec<u8> = Vec::new();
    let mut st = begin_tuple(&mut out);
    let mut i: usize = 0;
    assert(args@.take(0).map_values(|a: BoundProtocolProgramArgumentV3| program_argument_json(a)) =~= Seq::<Seq<u8>>::empty());
    while i < args.len()
        invariant
            i <= args@.len(),
            st.start@ == Seq::<u8>::empty(),
            st.items@ == args@.take(i as int).map_values(|a: BoundProtocolProgramArgumentV3| program_argument_json(a)),
            tuple_open(out@, st),
        decreases args@.len() - i,
    {
        let a = &args[i];
        let mut item: Vec<u8> = Vec::new();
        let o = begin_object(&mut item);
        let o = write_member(&mut item, o, "argument_ordinal", &a.argument_ordinal);
        let o = write_member_str(&mut item, o, "physical_name", a.physical_name.as_str());
        let o = write_member(&mut item, o, "source_role_id", &a.source_role_id);
        let o = write_member(&mut item, o, "value", &a.value);
        end_object(&mut item, o);
        assert(item@ =~= program_argument_json(*a));
        st = write_item_bytes(&mut out, st, &item);
        assert(args@.take(i + 1).map_values(|a: BoundProtocolProgramArgumentV3| program_argument_json(a))
            =~= args@.take(i as int).map_values(|a: BoundProtocolProgramArgumentV3| program_argument_json(a)).push(program_argument_json(*a)));
        i = i + 1;
    }
    assert(args@.take(args@.len() as int) =~= args@);
    end_tuple(&mut out, st);
    assert(out@ =~= program_arguments_json(args@));
    out
}

fn program_digest(x: &BoundProtocolActionV3, args: &Vec<BoundProtocolProgramArgumentV3>) -> (r: String)
    ensures
        utf8(r@) == program_root(*x, args@),
{
    let items = program_arguments_bytes(args);
    let mut out: Vec<u8> = Vec::new();
    let st = begin_tuple(&mut out);
    let st = write_item_str(&mut out, st, BOUND_PROTOCOL_PROGRAM_SCHEMA_V3);
    let st = write_item_str(&mut out, st, x.derivation_sha256.as_str());
    let st = write_item_str(&mut out, st, x.physical_action_sha256.as_str());
    let st = write_item_str(&mut out, st, x.mode_id_sha256.as_str());
    let st = write_item_str(&mut out, st, x.request_view_sha256.as_str());
    let st = write_item_str(&mut out, st, x.mapping_sha256.as_str());
    let st = write_item(&mut out, st, &x.capability_kind);
    let st = write_item_str(&mut out, st, x.physical_symbol.as_str());
    let st = write_item_bytes(&mut out, st, &items);
    let bound: usize = BOUND_PROTOCOL_PROGRAM_MAX_OUTPUT_BYTES_V3;
    let st = write_item(&mut out, st, &bound);
    end_tuple(&mut out, st);
    sha256_hex(out.as_slice())
}

fn copy_value(v: &BoundProtocolValueV3) -> (r: BoundProtocolValueV3)
    ensures
        r == *v,
{
    match v {
        BoundProtocolValueV3::String(s) => BoundProtocolValueV3::String(s.clone()),
        BoundProtocolValueV3::Integer(n) => BoundProtocolValueV3::Integer(*n),
        BoundProtocolValueV3::Boolean(b) => BoundProtocolValueV3::Boolean(*b),
        BoundProtocolValueV3::Identifier(s) => BoundProtocolValueV3::Identifier(s.clone()),
    }
}

/// Why an action does not compile, if it does not.
pub open spec fn program_error(x: BoundProtocolActionV3) -> Option<BoundProtocolProgramErrorV3> {
    if x.capability_kind != RuntimeCapabilityKindV3::Function {
        Some(BoundProtocolProgramErrorV3::UnsupportedCapability)
    } else if exists|i: int| 0 <= i < x.arguments@.len()
        && value_size((#[trigger] x.arguments@[i]).value) > BOUND_PROTOCOL_PROGRAM_MAX_VALUE_BYTES_V3 {
        Some(BoundProtocolProgramErrorV3::ValueBudget)
    } else {
        None
    }
}

/// What a program compiled from an action holds.
pub open spec fn program_of(p: BoundProtocolProgramV3, x: BoundProtocolActionV3) -> bool {
    &&& p.schema@ == BOUND_PROTOCOL_PROGRAM_SCHEMA_V3@
    &&& p.action_derivation_sha256@ == x.derivation_sha256@
    &&& p.physical_action_sha256@ == x.physical_action_sha256@
    &&& p.mode_id_sha256@ == x.mode_id_sha256@
    &&& p.request_view_sha256@ == x.request_view_sha256@
    &&& p.mapping_sha256@ == x.mapping_sha256@
    &&& p.capability_kind == x.capability_kind
    &&& p.physical_symbol@ == x.physical_symbol@
    &&& p.arguments@ == x.arguments@.map_values(|a: BoundProtocolArgumentV3| program_argument_of(a))
    &&& p.max_output_bytes == BOUND_PROTOCOL_PROGRAM_MAX_OUTPUT_BYTES_V3
    &&& utf8(p.program_sha256@) == program_root(x, p.arguments@)
}

/// Compiles a bound action of a function capability into its program;
/// refused for another kind of capability, or when an argument's value is
/// larger than the value budget.
pub fn compile_bound_protocol_program_v3(action: &BoundProtocolActionV3) -> (r: Result<BoundProtocolProgramV3, BoundProtocolProgramErrorV3>)
    ensures
        program_error(*action) matches Some(e) ==> r == Err::<BoundProtocolProgramV3, BoundProtocolProgramErrorV3>(e),
        program_error(*action) is None ==> (r matches Ok(p) && program_of(p, *action)),
{
    if action.capability_kind != RuntimeCapabilityKindV3::Function {
        return Err(BoundProtocolProgramErrorV3::UnsupportedCapability);
    }
    let mut arguments: Vec<BoundProtocolProgramArgumentV3> = Vec::new();
    let mut i: usize = 0;
    while i < action.arguments.len()
        invariant
            i <= action.arguments@.len(),
            action.capability_kind == RuntimeCapabilityKindV3::Function,
            forall|k: int| 0 <= k < i ==> value_size((#[trigger] action.arguments@[k]).value) <= BOUND_PROTOCOL_PROGRAM_MAX_VALUE_BYTES_V3,
            arguments@ == action.arguments@.take(i as int).map_values(|a: BoundProtocolArgumentV3| program_argument_of(a)),
        decreases action.arguments@.len() - i,
    {
        let a = &action.arguments[i];
        if value_bytes(&a.value) > BOUND_PROTOCOL_PROGRAM_MAX_VALUE_BYTES_V3 {
            assert(value_size(action.arguments@[i as int].value) > BOUND_PROTOCOL_PROGRAM_MAX_VALUE_BYTES_V3);
            return Err(BoundProtocolProgramErrorV3::ValueBudget);
        }
        arguments.push(BoundProtocolProgramArgumentV3 {
            argument_ordinal: a.argument_ordinal,
            source_role_id: a.source_role_id,
            physical_name: a.physical_name.clone(),
            value: copy_value(&a.value),
        });
        assert(arguments@ =~= action.arguments@.take(i + 1).map_values(|a: BoundProtocolArgumentV3| program_argument_of(a)));
        i = i + 1;
    }
    assert(action.arguments@.take(action.arguments@.len() as int) =~= action.arguments@);
    let program_sha256 = program_digest(action, &arguments);
    proof {
        reveal_strlit("nando.bound-protocol-program.v3");
    }
    Ok(BoundProtocolProgramV3 {
        schema: BOUND_PROTOCOL_PROGRAM_SCHEMA_V3,
        program_sha256,
        action_derivation_sha256: action.derivation_sha256.clone(),
        physical_action_sha256: action.physical_action_sha256.clone(),
        mode_id_sha256: action.mode_id_sha256.clone(),
        request_view_sha256: action.request_view_sha256.clone(),
        mapping_sha256: action.mapping_sha256.clone(),
        capability_kind: action.capability_kind,
        physical_symbol: action.physical_symbol.clone(),
        arguments,
        max_output_bytes: BOUND_PROTOCOL_PROGRAM_MAX_OUTPUT_BYTES_V3,
    })
}

// ---------------------------------------------------------------- accessors

impl BoundProtocolProgramArgumentV3 {
    pub fn argument_ordinal(&self) -> (r: u16)
        ensures
            r == self.argument_ordinal,
    {
        self.argument_ordinal
    }

    pub fn source_role_id(&self) -> (r: u16)
        ensures
            r == self.source_role_id,
    {
        self.source_role_id
    }

    pub fn physical_name(&self) -> (r: &str)
        ensures
            r@ == self.physical_name@,
    {
        self.physical_name.as_str()
    }

    pub fn value(&self) -> (r: &BoundProtocolValueV3)
        ensures
            *r == self.value,
    {
        &self.value
    }
}

impl BoundProtocolProgramV3 {
    pub fn schema(&self) -> (r: &'static str)
        ensures
            r@ == self.schema@,
    {
        self.schema
    }

    pub fn program_sha256(&self) -> (r: &str)
        ensures
            r@ == self.program_sha256@,
    {
        self.program_sha256.as_str()
    }

    pub fn action_derivation_sha256(&self) -> (r: &str)
        ensures
            r@ == self.action_derivation_sha256@,
    {
        self.action_derivation_sha256.as_str()
    }

    pub fn physical_action_sha256(&self) -> (r: &str)
        ensures
            r@ == self.physical_action_sha256@,
    {
        self.physical_action_sha256.as_str()
    }

    pub fn mode_id_sha256(&self) -> (r: &str)
        ensures
            r@ == self.mode_id_sha256@,
    {
        self.mode_id_sha256.as_str()
    }

    pub fn request_view_sha256(&self) -> (r: &str)
        ensures
            r@ == self.request_view_sha256@,
    {
        self.request_view_sha256.as_str()
    }

    pub fn mapping_sha256(&self) -> (r: &str)
        ensures
            r@ == self.mapping_sha256@,
    {
        self.mapping_sha256.as_str()
    }

    pub fn capability_kind(&self) -> (r: RuntimeCapabilityKindV3)
        ensures
            r == self.capability_kind,
    {
        self.capability_kind
    }

    pub fn physical_symbol(&self) -> (r: &str)
        ensures
            r@ == self.physical_symbol@,
    {
        self.physical_symbol.as_str()
    }

    pub fn arguments(&self) -> (r: &[BoundProtocolProgramArgumentV3])
        ensures
            r@ == self.arguments@,
    {
        self.arguments.as_slice()
    }

    pub fn max_output_bytes(&self) -> (r: usize)
        ensures
            r == self.max_output_bytes,
    {
        self.max_output_bytes
    }

    /// A program never carries authority to execute.
    pub fn execution_authority(&self) -> (r: bool)
        ensures
            !r,
    {
        false
    }
}

} // verus!
