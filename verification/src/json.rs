//! Canonical JSON: compact output with object keys in sorted order,
//! strings escaped as JSON requires, integers in decimal.
use vstd::prelude::*;
use crate::text::utf8;
use crate::digest::{hex_digit, hex_lower, sha256_spec, sha256_hex};

verus! {

// ---------------------------------------------------------------- strings

/// The escaped form of one UTF-8 byte inside a JSON string. Bytes of
/// multi-byte characters are at least 0x80 and pass through unchanged.
pub open spec fn escape_byte(b: u8) -> Seq<u8> {
    if b == 0x22 {
        seq![0x5cu8, 0x22u8]
    } else if b == 0x5c {
        seq![0x5cu8, 0x5cu8]
    } else if b == 0x08 {
        seq![0x5cu8, 0x62u8]
    } else if b == 0x0c {
        seq![0x5cu8, 0x66u8]
    } else if b == 0x0a {
        seq![0x5cu8, 0x6eu8]
    } else if b == 0x0d {
        seq![0x5cu8, 0x72u8]
    } else if b == 0x09 {
        seq![0x5cu8, 0x74u8]
    } else if b < 0x20 {
        seq![0x5cu8, 0x75u8, 0x30u8, 0x30u8, hex_digit(b / 16), hex_digit(b % 16)]
    } else {
        seq![b]
    }
}

pub open spec fn escape_bytes(b: Seq<u8>) -> Seq<u8>
    decreases b.len(),
{
    if b.len() == 0 {
        Seq::empty()
    } else {
        escape_bytes(b.drop_last()) + escape_byte(b.last())
    }
}

/// A JSON string literal holding the text.
pub open spec fn json_str(s: Seq<char>) -> Seq<u8> {
    seq![0x22u8] + escape_bytes(utf8(s)) + seq![0x22u8]
}

fn push_escaped(out: &mut Vec<u8>, b: u8)
    ensures
        final(out)@ == old(out)@ + escape_byte(b),
{
    if b == 0x22 {
        out.push(0x5c);
        out.push(0x22);
    } else if b == 0x5c {
        out.push(0x5c);
        out.push(0x5c);
    } else if b == 0x08 {
        out.push(0x5c);
        out.push(0x62);
    } else if b == 0x0c {
        out.push(0x5c);
        out.push(0x66);
    } else if b == 0x0a {
        out.push(0x5c);
        out.push(0x6e);
    } else if b == 0x0d {
        out.push(0x5c);
        out.push(0x72);
    } else if b == 0x09 {
        out.push(0x5c);
        out.push(0x74);
    } else if b < 0x20 {
        out.push(0x5c);
        out.push(0x75);
        out.push(0x30);
        out.push(0x30);
        let hi = b / 16;
        let lo = b % 16;
        out.push(if hi < 10 { 0x30 + hi } else { 0x61 + hi - 10 });
        out.push(if lo < 10 { 0x30 + lo } else { 0x61 + lo - 10 });
    } else {
        out.push(b);
    }
    assert(final(out)@ =~= old(out)@ + escape_byte(b));
}

/// Appends the JSON string literal of a text.
pub fn write_str(out: &mut Vec<u8>, s: &str)
    ensures
        final(out)@ == old(out)@ + json_str(s@),
{
    let b = s.as_bytes();
    out.push(0x22);
    let ghost start = out@;
    let mut i: usize = 0;
    while i < b.len()
        invariant
            i <= b@.len(),
            b@ == utf8(s@),
            out@ == start + escape_bytes(b@.take(i as int)),
        decreases b@.len() - i,
    {
        assert(b@.take(i + 1).drop_last() =~= b@.take(i as int));
        push_escaped(out, b[i]);
        assert(out@ =~= start + escape_bytes(b@.take(i + 1)));
        i = i + 1;
    }
    assert(b@.take(b@.len() as int) =~= b@);
    out.push(0x22);
    assert(out@ =~= old(out)@ + json_str(s@));
}

/// Appends the UTF-8 bytes of a text, unescaped (keys and punctuation).
pub fn write_raw(out: &mut Vec<u8>, s: &str)
    ensures
        final(out)@ == old(out)@ + utf8(s@),
{
    let b = s.as_bytes();
    let ghost start = out@;
    let mut i: usize = 0;
    while i < b.len()
        invariant
            i <= b@.len(),
            b@ == utf8(s@),
            out@ == start + b@.take(i as int),
        decreases b@.len() - i,
    {
        out.push(b[i]);
        assert(out@ =~= start + b@.take(i + 1));
        i = i + 1;
    }
    assert(b@.take(b@.len() as int) =~= b@);
}

// ---------------------------------------------------------------- numbers and literals

/// Decimal digits of a natural number, without leading zeros.
pub open spec fn dec(n: nat) -> Seq<u8>
    decreases n,
{
    if n < 10 {
        seq![(0x30 + n) as u8]
    } else {
        dec(n / 10).push((0x30 + n % 10) as u8)
    }
}

/// A JSON integer.
pub open spec fn json_int(v: int) -> Seq<u8> {
    if v < 0 { seq![0x2du8] + dec((-v) as nat) } else { dec(v as nat) }
}

pub fn write_u64(out: &mut Vec<u8>, n: u64)
    ensures
        final(out)@ == old(out)@ + dec(n as nat),
    decreases n,
{
    if n >= 10 {
        write_u64(out, n / 10);
    }
    let d = (n % 10) as u8;
    out.push(0x30 + d);
    assert(final(out)@ =~= old(out)@ + dec(n as nat));
}

pub fn write_i64(out: &mut Vec<u8>, v: i64)
    ensures
        final(out)@ == old(out)@ + json_int(v as int),
{
    if v < 0 {
        out.push(0x2d);
        let m: u64 = ((-(v + 1)) as u64) + 1;
        assert(m as int == -(v as int));
        write_u64(out, m);
        assert(final(out)@ =~= old(out)@ + json_int(v as int));
    } else {
        write_u64(out, v as u64);
    }
}

pub open spec fn json_bool(b: bool) -> Seq<u8> {
    if b { utf8("true"@) } else { utf8("false"@) }
}

pub open spec fn json_null() -> Seq<u8> {
    utf8("null"@)
}

// ---------------------------------------------------------------- values

/// A value with a canonical JSON form.
pub trait CanonicalJson {
    spec fn json(&self) -> Seq<u8>;

    fn write_json(&self, out: &mut Vec<u8>)
        ensures
            final(out)@ == old(out)@ + self.json();
}

impl CanonicalJson for u8 {
    open spec fn json(&self) -> Seq<u8> {
        dec(*self as nat)
    }

    fn write_json(&self, out: &mut Vec<u8>) {
        write_u64(out, *self as u64);
    }
}

impl CanonicalJson for u16 {
    open spec fn json(&self) -> Seq<u8> {
        dec(*self as nat)
    }

    fn write_json(&self, out: &mut Vec<u8>) {
        write_u64(out, *self as u64);
    }
}

impl CanonicalJson for u32 {
    open spec fn json(&self) -> Seq<u8> {
        dec(*self as nat)
    }

    fn write_json(&self, out: &mut Vec<u8>) {
        write_u64(out, *self as u64);
    }
}

impl CanonicalJson for u64 {
    open spec fn json(&self) -> Seq<u8> {
        dec(*self as nat)
    }

    fn write_json(&self, out: &mut Vec<u8>) {
        write_u64(out, *self);
    }
}

impl CanonicalJson for usize {
    open spec fn json(&self) -> Seq<u8> {
        dec(*self as nat)
    }

    fn write_json(&self, out: &mut Vec<u8>) {
        write_u64(out, *self as u64);
    }
}

impl CanonicalJson for i8 {
    open spec fn json(&self) -> Seq<u8> {
        json_int(*self as int)
    }

    fn write_json(&self, out: &mut Vec<u8>) {
        write_i64(out, *self as i64);
    }
}

impl CanonicalJson for i32 {
    open spec fn json(&self) -> Seq<u8> {
        json_int(*self as int)
    }

    fn write_json(&self, out: &mut Vec<u8>) {
        write_i64(out, *self as i64);
    }
}

impl CanonicalJson for i64 {
    open spec fn json(&self) -> Seq<u8> {
        json_int(*self as int)
    }

    fn write_json(&self, out: &mut Vec<u8>) {
        write_i64(out, *self);
    }
}

impl CanonicalJson for bool {
    open spec fn json(&self) -> Seq<u8> {
        json_bool(*self)
    }

    fn write_json(&self, out: &mut Vec<u8>) {
        if *self {
            write_raw(out, "true");
        } else {
            write_raw(out, "false");
        }
    }
}

impl CanonicalJson for String {
    open spec fn json(&self) -> Seq<u8> {
        json_str(self@)
    }

    fn write_json(&self, out: &mut Vec<u8>) {
        write_str(out, self.as_str());
    }
}

impl<'a> CanonicalJson for &'a str {
    open spec fn json(&self) -> Seq<u8> {
        json_str((*self)@)
    }

    fn write_json(&self, out: &mut Vec<u8>) {
        write_str(out, *self);
    }
}

impl<T: CanonicalJson> CanonicalJson for Option<T> {
    open spec fn json(&self) -> Seq<u8> {
        match self {
            Some(v) => v.json(),
            None => json_null(),
        }
    }

    fn write_json(&self, out: &mut Vec<u8>) {
        match self {
            Some(v) => v.write_json(out),
            None => write_raw(out, "null"),
        }
    }
}

/// The comma-separated JSON forms of the items.
pub open spec fn json_items<T: CanonicalJson>(s: Seq<T>) -> Seq<u8>
    decreases s.len(),
{
    if s.len() == 0 {
        Seq::empty()
    } else if s.len() == 1 {
        s[0].json()
    } else {
        json_items(s.drop_last()) + seq![0x2cu8] + s.last().json()
    }
}

/// A JSON array of the items, in order.
pub open spec fn json_array<T: CanonicalJson>(s: Seq<T>) -> Seq<u8> {
    seq![0x5bu8] + json_items(s) + seq![0x5du8]
}

pub fn write_array<T: CanonicalJson>(out: &mut Vec<u8>, v: &[T])
    ensures
        final(out)@ == old(out)@ + json_array(v@),
{
    out.push(0x5b);
    let ghost start = out@;
    let mut i: usize = 0;
    while i < v.len()
        invariant
            i <= v@.len(),
            out@ == start + json_items(v@.take(i as int)),
        decreases v@.len() - i,
    {
        assert(v@.take(i + 1).drop_last() =~= v@.take(i as int));
        assert(v@.take(i + 1).last() == v@[i as int]);
        if i > 0 {
            out.push(0x2c);
        }
        v[i].write_json(out);
        assert(out@ =~= start + json_items(v@.take(i + 1)));
        i = i + 1;
    }
    assert(v@.take(v@.len() as int) =~= v@);
    out.push(0x5d);
    assert(out@ =~= old(out)@ + json_array(v@));
}

impl<T: CanonicalJson> CanonicalJson for Vec<T> {
    open spec fn json(&self) -> Seq<u8> {
        json_array(self@)
    }

    fn write_json(&self, out: &mut Vec<u8>) {
        write_array(out, self.as_slice());
    }
}

/// The canonical JSON bytes of a value.
pub fn canonical_json_bytes<T: CanonicalJson>(value: &T) -> (out: Vec<u8>)
    ensures
        out@ == value.json(),
{
    let mut out: Vec<u8> = Vec::new();
    value.write_json(&mut out);
    assert(out@ =~= value.json());
    out
}

/// The identity of canonical JSON bytes: their SHA-256 in lowercase hexadecimal.
pub open spec fn json_identity(bytes: Seq<u8>) -> Seq<u8> {
    hex_lower(sha256_spec(bytes))
}

/// The SHA-256 identity of the canonical JSON of a value.
pub fn canonical_json_sha256<T: CanonicalJson>(value: &T) -> (s: String)
    ensures
        utf8(s@) == json_identity(value.json()),
{
    let bytes = canonical_json_bytes(value);
    sha256_hex(bytes.as_slice())
}

// ---------------------------------------------------------------- objects

/// One `"key":value` member of an object.
pub open spec fn member(m: (Seq<char>, Seq<u8>)) -> Seq<u8> {
    json_str(m.0) + seq![0x3au8] + m.1
}

/// The comma-separated members, in order.
pub open spec fn members(ms: Seq<(Seq<char>, Seq<u8>)>) -> Seq<u8>
    decreases ms.len(),
{
    if ms.len() == 0 {
        Seq::empty()
    } else if ms.len() == 1 {
        member(ms[0])
    } else {
        members(ms.drop_last()) + seq![0x2cu8] + member(ms.last())
    }
}

/// A JSON object with the given members, in the given order.
pub open spec fn object(ms: Seq<(Seq<char>, Seq<u8>)>) -> Seq<u8> {
    seq![0x7bu8] + members(ms) + seq![0x7du8]
}

/// An object being written: where it started, the members so far, and
/// whether there is none yet.
pub struct ObjectState {
    pub empty: bool,
    pub start: Ghost<Seq<u8>>,
    pub fields: Ghost<Seq<(Seq<char>, Seq<u8>)>>,
}

pub open spec fn object_open(out: Seq<u8>, st: ObjectState) -> bool {
    &&& out == st.start@ + seq![0x7bu8] + members(st.fields@)
    &&& st.empty == (st.fields@.len() == 0)
}

pub fn begin_object(out: &mut Vec<u8>) -> (st: ObjectState)
    ensures
        st.start@ == old(out)@,
        st.fields@ == Seq::<(Seq<char>, Seq<u8>)>::empty(),
        object_open(final(out)@, st),
{
    out.push(0x7b);
    assert(out@ =~= old(out)@ + seq![0x7bu8] + members(Seq::<(Seq<char>, Seq<u8>)>::empty()));
    ObjectState { empty: true, start: Ghost(old(out)@), fields: Ghost(Seq::empty()) }
}

/// Appends a member whose value is given as JSON bytes.
pub fn write_member_bytes(out: &mut Vec<u8>, st: ObjectState, key: &str, value: &[u8]) -> (r: ObjectState)
    requires
        object_open(old(out)@, st),
    ensures
        r.start@ == st.start@,
        r.fields@ == st.fields@.push((key@, value@)),
        object_open(final(out)@, r),
{
    if !st.empty {
        out.push(0x2c);
    }
    write_str(out, key);
    out.push(0x3a);
    let mut i: usize = 0;
    let ghost mid = out@;
    while i < value.len()
        invariant
            i <= value@.len(),
            out@ == mid + value@.take(i as int),
        decreases value@.len() - i,
    {
        out.push(value[i]);
        assert(out@ =~= mid + value@.take(i + 1));
        i = i + 1;
    }
    assert(value@.take(value@.len() as int) =~= value@);
    let ghost ms = st.fields@.push((key@, value@));
    assert(ms.drop_last() =~= st.fields@);
    assert(out@ =~= st.start@ + seq![0x7bu8] + members(ms));
    ObjectState { empty: false, start: st.start, fields: Ghost(ms) }
}

/// Appends a member with a value that has a canonical JSON form.
pub fn write_member<T: CanonicalJson>(out: &mut Vec<u8>, st: ObjectState, key: &str, value: &T) -> (r: ObjectState)
    requires
        object_open(old(out)@, st),
    ensures
        r.start@ == st.start@,
        r.fields@ == st.fields@.push((key@, value.json())),
        object_open(final(out)@, r),
{
    if !st.empty {
        out.push(0x2c);
    }
    write_str(out, key);
    out.push(0x3a);
    value.write_json(out);
    let ghost ms = st.fields@.push((key@, value.json()));
    assert(ms.drop_last() =~= st.fields@);
    assert(out@ =~= st.start@ + seq![0x7bu8] + members(ms));
    ObjectState { empty: false, start: st.start, fields: Ghost(ms) }
}

/// Appends a member whose value is a string.
pub fn write_member_str(out: &mut Vec<u8>, st: ObjectState, key: &str, value: &str) -> (r: ObjectState)
    requires
        object_open(old(out)@, st),
    ensures
        r.start@ == st.start@,
        r.fields@ == st.fields@.push((key@, json_str(value@))),
        object_open(final(out)@, r),
{
    if !st.empty {
        out.push(0x2c);
    }
    write_str(out, key);
    out.push(0x3a);
    write_str(out, value);
    let ghost ms = st.fields@.push((key@, json_str(value@)));
    assert(ms.drop_last() =~= st.fields@);
    assert(out@ =~= st.start@ + seq![0x7bu8] + members(ms));
    ObjectState { empty: false, start: st.start, fields: Ghost(ms) }
}

pub fn end_object(out: &mut Vec<u8>, st: ObjectState)
    requires
        object_open(old(out)@, st),
    ensures
        final(out)@ == st.start@ + object(st.fields@),
{
    out.push(0x7d);
    assert(out@ =~= st.start@ + object(st.fields@));
}

// ---------------------------------------------------------------- tuples

/// The comma-separated items, in order.
pub open spec fn joined(items: Seq<Seq<u8>>) -> Seq<u8>
    decreases items.len(),
{
    if items.len() == 0 {
        Seq::empty()
    } else if items.len() == 1 {
        items[0]
    } else {
        joined(items.drop_last()) + seq![0x2cu8] + items.last()
    }
}

/// A JSON array of heterogeneous items (a serialized tuple).
pub open spec fn tuple(items: Seq<Seq<u8>>) -> Seq<u8> {
    seq![0x5bu8] + joined(items) + seq![0x5du8]
}

/// A tuple being written: where it started, the items so far, and whether
/// there is none yet.
pub struct TupleState {
    pub empty: bool,
    pub start: Ghost<Seq<u8>>,
    pub items: Ghost<Seq<Seq<u8>>>,
}

pub open spec fn tuple_open(out: Seq<u8>, st: TupleState) -> bool {
    &&& out == st.start@ + seq![0x5bu8] + joined(st.items@)
    &&& st.empty == (st.items@.len() == 0)
}

pub fn begin_tuple(out: &mut Vec<u8>) -> (st: TupleState)
    ensures
        st.start@ == old(out)@,
        st.items@ == Seq::<Seq<u8>>::empty(),
        tuple_open(final(out)@, st),
{
    out.push(0x5b);
    assert(out@ =~= old(out)@ + seq![0x5bu8] + joined(Seq::<Seq<u8>>::empty()));
    TupleState { empty: true, start: Ghost(old(out)@), items: Ghost(Seq::empty()) }
}

/// Appends an item with a canonical JSON form.
pub fn write_item<T: CanonicalJson>(out: &mut Vec<u8>, st: TupleState, value: &T) -> (r: TupleState)
    requires
        tuple_open(old(out)@, st),
    ensures
        r.start@ == st.start@,
        r.items@ == st.items@.push(value.json()),
        tuple_open(final(out)@, r),
{
    if !st.empty {
        out.push(0x2c);
    }
    value.write_json(out);
    let ghost items = st.items@.push(value.json());
    assert(items.drop_last() =~= st.items@);
    assert(out@ =~= st.start@ + seq![0x5bu8] + joined(items));
    TupleState { empty: false, start: st.start, items: Ghost(items) }
}

/// Appends a string item.
pub fn write_item_str(out: &mut Vec<u8>, st: TupleState, value: &str) -> (r: TupleState)
    requires
        tuple_open(old(out)@, st),
    ensures
        r.start@ == st.start@,
        r.items@ == st.items@.push(json_str(value@)),
        tuple_open(final(out)@, r),
{
    if !st.empty {
        out.push(0x2c);
    }
    write_str(out, value);
    let ghost items = st.items@.push(json_str(value@));
    assert(items.drop_last() =~= st.items@);
    assert(out@ =~= st.start@ + seq![0x5bu8] + joined(items));
    TupleState { empty: false, start: st.start, items: Ghost(items) }
}

pub fn end_tuple(out: &mut Vec<u8>, st: TupleState)
    requires
        tuple_open(old(out)@, st),
    ensures
        final(out)@ == st.start@ + tuple(st.items@),
{
    out.push(0x5d);
    assert(out@ =~= st.start@ + tuple(st.items@));
}

} // verus!
