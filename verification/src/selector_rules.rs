//! Rules for value selectors: identifiers, private-looking text, and the
//! bounds that each selector kind must keep.
use vstd::prelude::*;
use crate::text::{
    utf8, is_alnum_byte, is_alpha_byte, is_digit_byte, is_ascii_control_byte, alnum_byte,
    alpha_byte, digit_byte, ascii_control_byte, contains_sub, contains_bytes, ascii_lower,
    ascii_lower_bytes, maximal_run, some_run, runs_checked, lemma_runs_start, lemma_runs_skip,
    lemma_runs_close, lemma_runs_done, byte_len,
};
use crate::contracts::{AtomValueType, ResponseValueSelector};
use crate::program::CollectionScalarType;

verus! {

// ---------------------------------------------------------------- identifiers

pub open spec fn is_ident_byte(b: u8) -> bool {
    is_alnum_byte(b) || b == 0x5f
}

/// A non-empty run of ASCII letters, digits and underscores.
pub open spec fn is_identifier(b: Seq<u8>) -> bool {
    b.len() > 0 && forall|i: int| 0 <= i < b.len() ==> #[trigger] is_ident_byte(b[i])
}

pub fn identifier_bytes(b: &[u8]) -> (r: bool)
    ensures
        r == is_identifier(b@),
{
    if b.len() == 0 {
        return false;
    }
    let mut i: usize = 0;
    while i < b.len()
        invariant
            i <= b@.len(),
            forall|k: int| 0 <= k < i ==> #[trigger] is_ident_byte(b@[k]),
        decreases b@.len() - i,
    {
        if !(alnum_byte(b[i]) || b[i] == 0x5f) {
            assert(!is_ident_byte(b@[i as int]));
            return false;
        }
        i = i + 1;
    }
    true
}

/// Whether a text is an identifier.
pub fn is_identifier_text(s: &str) -> (r: bool)
    ensures
        r == is_identifier(utf8(s@)),
{
    identifier_bytes(s.as_bytes())
}

/// Some byte is an ASCII control byte.
pub open spec fn has_ascii_control(b: Seq<u8>) -> bool {
    exists|i: int| 0 <= i < b.len() && #[trigger] is_ascii_control_byte(b[i])
}

pub fn any_ascii_control(b: &[u8]) -> (r: bool)
    ensures
        r == has_ascii_control(b@),
{
    let mut i: usize = 0;
    while i < b.len()
        invariant
            i <= b@.len(),
            forall|k: int| 0 <= k < i ==> !#[trigger] is_ascii_control_byte(b@[k]),
        decreases b@.len() - i,
    {
        if ascii_control_byte(b[i]) {
            return true;
        }
        i = i + 1;
    }
    false
}

// ---------------------------------------------------------------- private-looking text

/// Long alphanumeric runs that mix letters and digits look like secrets.
pub open spec fn alnum_class() -> spec_fn(u8) -> bool {
    |b: u8| is_alnum_byte(b)
}

pub open spec fn secret_run(b: Seq<u8>) -> spec_fn(int, int) -> bool {
    |i: int, j: int| j - i >= 32
        && (exists|k: int| i <= k < j && #[trigger] is_digit_byte(b[k]))
        && (exists|k: int| i <= k < j && #[trigger] is_alpha_byte(b[k]))
}

pub open spec fn has_secret_run(b: Seq<u8>) -> bool {
    some_run(b, alnum_class(), secret_run(b))
}

fn secret_run_exec(b: &[u8]) -> (r: bool)
    ensures
        r == has_secret_run(b@),
{
    let ghost cls = alnum_class();
    let ghost pr = secret_run(b@);
    let n = b.len();
    let mut in_run = false;
    let mut s: usize = 0;
    let mut digit = false;
    let mut alpha = false;
    let mut p: usize = 0;
    proof {
        lemma_runs_start(b@, cls, pr);
    }
    while p < n
        invariant
            n == b@.len(),
            p <= n,
            s <= p,
            in_run ==> s < p,
            in_run ==> forall|k: int| s <= k < p ==> #[trigger] cls(b@[k]),
            in_run ==> (s == 0 || !cls(b@[s - 1])),
            in_run ==> digit == exists|k: int| s <= k < p && #[trigger] is_digit_byte(b@[k]),
            in_run ==> alpha == exists|k: int| s <= k < p && #[trigger] is_alpha_byte(b@[k]),
            in_run ==> runs_checked(b@, cls, pr, s as int),
            !in_run ==> runs_checked(b@, cls, pr, p as int),
            !in_run ==> (p == 0 || !cls(b@[p - 1])),
            cls == alnum_class(),
            pr == secret_run(b@),
        decreases n - p,
    {
        let x = b[p];
        if alnum_byte(x) {
            if !in_run {
                in_run = true;
                s = p;
                digit = digit_byte(x);
                alpha = alpha_byte(x);
            } else {
                digit = digit || digit_byte(x);
                alpha = alpha || alpha_byte(x);
            }
        } else {
            if in_run {
                let ok = p - s >= 32 && digit && alpha;
                if ok {
                    assert(pr(s as int, p as int));
                    assert(maximal_run(b@, cls, s as int, p as int));
                    return true;
                }
                proof {
                    lemma_runs_close(b@, cls, pr, s as int, p as int);
                }
                in_run = false;
            } else {
                proof {
                    lemma_runs_skip(b@, cls, pr, p as int);
                }
            }
        }
        p = p + 1;
    }
    if in_run {
        let ok = n - s >= 32 && digit && alpha;
        if ok {
            assert(pr(s as int, n as int));
            assert(maximal_run(b@, cls, s as int, n as int));
            return true;
        }
        proof {
            lemma_runs_close(b@, cls, pr, s as int, n as int);
        }
    }
    proof {
        lemma_runs_done(b@, cls, pr, n as int + 1);
    }
    false
}

/// Separators that a compact spelling drops: `_`, space and tab.
pub open spec fn is_compact_separator(b: u8) -> bool {
    b == 0x5f || b == 0x20 || b == 0x09
}

/// The bytes without separators, in order.
pub open spec fn compact(b: Seq<u8>) -> Seq<u8>
    decreases b.len(),
{
    if b.len() == 0 {
        b
    } else if is_compact_separator(b.last()) {
        compact(b.drop_last())
    } else {
        compact(b.drop_last()).push(b.last())
    }
}

fn compact_exec(b: &[u8]) -> (r: Vec<u8>)
    ensures
        r@ == compact(b@),
{
    let mut out: Vec<u8> = Vec::new();
    let mut i: usize = 0;
    while i < b.len()
        invariant
            i <= b@.len(),
            out@ == compact(b@.take(i as int)),
        decreases b@.len() - i,
    {
        let x = b[i];
        assert(b@.take(i + 1).drop_last() =~= b@.take(i as int));
        if !(x == 0x5f || x == 0x20 || x == 0x09) {
            out.push(x);
        }
        i = i + 1;
    }
    assert(b@.take(b@.len() as int) =~= b@);
    out
}

/// Structural names and locations that a selector may not mention.
pub open spec fn private_term_hit(lower: Seq<u8>) -> bool {
    contains_sub(lower, utf8("://"@)) || contains_sub(lower, utf8("@"@))
    || contains_sub(lower, utf8("/home/"@)) || contains_sub(lower, utf8("/root/"@))
    || contains_sub(lower, utf8("\\"@)) || contains_sub(lower, utf8("auth"@))
    || contains_sub(lower, utf8("cookie"@)) || contains_sub(lower, utf8("credential"@))
    || contains_sub(lower, utf8("passwd"@)) || contains_sub(lower, utf8("password"@))
    || contains_sub(lower, utf8("secret"@)) || contains_sub(lower, utf8("token"@))
}

/// Selector text that names private material or carries a secret-like run.
pub open spec fn selector_text_private(value: Seq<char>) -> bool {
    let lower = ascii_lower(utf8(value));
    private_term_hit(lower)
    || contains_sub(compact(lower), utf8("apikey"@))
    || contains_sub(compact(lower), utf8("privatekey"@))
    || has_secret_run(utf8(value))
}

fn private_term_exec(lower: &[u8]) -> (r: bool)
    ensures
        r == private_term_hit(lower@),
{
    contains_bytes(lower, "://".as_bytes()) || contains_bytes(lower, "@".as_bytes())
    || contains_bytes(lower, "/home/".as_bytes()) || contains_bytes(lower, "/root/".as_bytes())
    || contains_bytes(lower, "\\".as_bytes()) || contains_bytes(lower, "auth".as_bytes())
    || contains_bytes(lower, "cookie".as_bytes()) || contains_bytes(lower, "credential".as_bytes())
    || contains_bytes(lower, "passwd".as_bytes()) || contains_bytes(lower, "password".as_bytes())
    || contains_bytes(lower, "secret".as_bytes()) || contains_bytes(lower, "token".as_bytes())
}

pub fn selector_text_looks_private(value: &str) -> (r: bool)
    ensures
        r == selector_text_private(value@),
{
    let bytes = value.as_bytes();
    let lower = ascii_lower_bytes(bytes);
    let squeezed = compact_exec(lower.as_slice());
    private_term_exec(lower.as_slice())
    || contains_bytes(squeezed.as_slice(), "apikey".as_bytes())
    || contains_bytes(squeezed.as_slice(), "privatekey".as_bytes())
    || secret_run_exec(bytes)
}

// ---------------------------------------------------------------- selectors

/// The value type that a selector yields.
pub open spec fn spec_selector_value_type(s: ResponseValueSelector) -> AtomValueType {
    match s {
        ResponseValueSelector::ContinuationHandle { value_type } => value_type,
        ResponseValueSelector::UniqueScalar { value_type } => value_type,
        ResponseValueSelector::UniqueTurnScalar { value_type } => value_type,
        ResponseValueSelector::ContentLinePrefix { value_type, .. } => value_type,
        ResponseValueSelector::JsonField { value_type, .. } => value_type,
        ResponseValueSelector::JsonScalarOrdinal { value_type, .. } => value_type,
        ResponseValueSelector::UniqueTurnJsonField { value_type, .. } => value_type,
        ResponseValueSelector::UniqueActiveTurnJsonField { value_type, .. } => value_type,
        ResponseValueSelector::RequestReferencedJsonField { value_type } => value_type,
        ResponseValueSelector::RequestReferencedJsonFieldOrdinal { value_type, .. } => value_type,
        ResponseValueSelector::TurnOutputLine { value_type, .. } => value_type,
        ResponseValueSelector::TurnOutputScalarOrdinal { value_type, .. } => value_type,
        ResponseValueSelector::LatestTurnOutputLine { value_type, .. } => value_type,
        ResponseValueSelector::LatestTurnOutputScalarOrdinal { value_type, .. } => value_type,
        ResponseValueSelector::LatestTurnOutputScalarFromEnd { value_type, .. } => value_type,
        ResponseValueSelector::CommandOutputBody => AtomValueType::String,
        ResponseValueSelector::RequestLastToken => AtomValueType::String,
        ResponseValueSelector::RequestUniqueLiteral => AtomValueType::String,
    }
}

pub fn selector_value_type(s: &ResponseValueSelector) -> (r: AtomValueType)
    ensures
        r == spec_selector_value_type(*s),
{
    match s {
        ResponseValueSelector::ContinuationHandle { value_type } => *value_type,
        ResponseValueSelector::UniqueScalar { value_type } => *value_type,
        ResponseValueSelector::UniqueTurnScalar { value_type } => *value_type,
        ResponseValueSelector::ContentLinePrefix { value_type, .. } => *value_type,
        ResponseValueSelector::JsonField { value_type, .. } => *value_type,
        ResponseValueSelector::JsonScalarOrdinal { value_type, .. } => *value_type,
        ResponseValueSelector::UniqueTurnJsonField { value_type, .. } => *value_type,
        ResponseValueSelector::UniqueActiveTurnJsonField { value_type, .. } => *value_type,
        ResponseValueSelector::RequestReferencedJsonField { value_type } => *value_type,
        ResponseValueSelector::RequestReferencedJsonFieldOrdinal { value_type, .. } => *value_type,
        ResponseValueSelector::TurnOutputLine { value_type, .. } => *value_type,
        ResponseValueSelector::TurnOutputScalarOrdinal { value_type, .. } => *value_type,
        ResponseValueSelector::LatestTurnOutputLine { value_type, .. } => *value_type,
        ResponseValueSelector::LatestTurnOutputScalarOrdinal { value_type, .. } => *value_type,
        ResponseValueSelector::LatestTurnOutputScalarFromEnd { value_type, .. } => *value_type,
        ResponseValueSelector::CommandOutputBody => AtomValueType::String,
        ResponseValueSelector::RequestLastToken => AtomValueType::String,
        ResponseValueSelector::RequestUniqueLiteral => AtomValueType::String,
    }
}

/// The scalar type of a collection filter that compares with the selected value.
pub open spec fn spec_collection_selector_type(s: ResponseValueSelector) -> Option<CollectionScalarType> {
    match spec_selector_value_type(s) {
        AtomValueType::String => Some(CollectionScalarType::String),
        AtomValueType::Identifier => Some(CollectionScalarType::String),
        AtomValueType::Integer => Some(CollectionScalarType::Integer),
        AtomValueType::Boolean => Some(CollectionScalarType::Boolean),
        AtomValueType::Collection => None,
    }
}

pub fn collection_selector_type(s: &ResponseValueSelector) -> (r: Option<CollectionScalarType>)
    ensures
        r == spec_collection_selector_type(*s),
{
    match selector_value_type(s) {
        AtomValueType::String => Some(CollectionScalarType::String),
        AtomValueType::Identifier => Some(CollectionScalarType::String),
        AtomValueType::Integer => Some(CollectionScalarType::Integer),
        AtomValueType::Boolean => Some(CollectionScalarType::Boolean),
        AtomValueType::Collection => None,
    }
}

/// A line prefix is refused when empty, longer than 128 bytes, holding a
/// control byte, or looking private.
pub open spec fn prefix_refused(prefix: Seq<char>) -> bool {
    let b = utf8(prefix);
    b.len() == 0 || b.len() > 128 || has_ascii_control(b) || selector_text_private(prefix)
}

/// A JSON field name is refused unless it is an identifier of at most 64
/// bytes that does not look private.
pub open spec fn field_refused(field: Seq<char>) -> bool {
    let b = utf8(field);
    !is_identifier(b) || b.len() > 64 || selector_text_private(field)
}

/// What validating a selector gives.
pub open spec fn spec_validate_selector(s: ResponseValueSelector) -> Result<(), &'static str> {
    match s {
        ResponseValueSelector::ContinuationHandle { value_type } => {
            if value_type == AtomValueType::Identifier || value_type == AtomValueType::String {
                Ok(())
            } else {
                Err("invalid_continuation_handle_type")
            }
        },
        ResponseValueSelector::UniqueScalar { .. } => Ok(()),
        ResponseValueSelector::UniqueTurnScalar { .. } => Ok(()),
        ResponseValueSelector::RequestReferencedJsonField { .. } => Ok(()),
        ResponseValueSelector::RequestReferencedJsonFieldOrdinal { ordinal, .. } => {
            if ordinal <= 15 { Ok(()) } else { Err("request_referenced_ordinal_budget") }
        },
        ResponseValueSelector::JsonScalarOrdinal { ordinal, .. } => {
            if ordinal < 64 { Ok(()) } else { Err("invalid_selector_scalar_ordinal") }
        },
        ResponseValueSelector::ContentLinePrefix { prefix, .. } => {
            if prefix_refused(prefix@) { Err("invalid_selector_prefix") } else { Ok(()) }
        },
        ResponseValueSelector::JsonField { field, .. } => {
            if field_refused(field@) { Err("invalid_selector_field") } else { Ok(()) }
        },
        ResponseValueSelector::UniqueTurnJsonField { field, .. } => {
            if field_refused(field@) { Err("invalid_selector_field") } else { Ok(()) }
        },
        ResponseValueSelector::UniqueActiveTurnJsonField { field, .. } => {
            if field_refused(field@) { Err("invalid_selector_field") } else { Ok(()) }
        },
        ResponseValueSelector::TurnOutputLine { output_ordinal, line_index, value_type } => {
            if output_ordinal == 0 || output_ordinal > 64 || line_index > 255
                || value_type != AtomValueType::String {
                Err("invalid_turn_output_line_selector")
            } else {
                Ok(())
            }
        },
        ResponseValueSelector::TurnOutputScalarOrdinal { output_ordinal, scalar_ordinal, value_type } => {
            if output_ordinal == 0 || output_ordinal > 64 || scalar_ordinal >= 64
                || value_type == AtomValueType::Collection {
                Err("invalid_turn_output_scalar_ordinal_selector")
            } else {
                Ok(())
            }
        },
        ResponseValueSelector::LatestTurnOutputLine { line_index, value_type } => {
            if line_index > 255 || value_type != AtomValueType::String {
                Err("invalid_latest_turn_output_line_selector")
            } else {
                Ok(())
            }
        },
        ResponseValueSelector::LatestTurnOutputScalarOrdinal { scalar_ordinal, value_type } => {
            if scalar_ordinal >= 64 || value_type == AtomValueType::Collection {
                Err("invalid_latest_turn_output_scalar_ordinal_selector")
            } else {
                Ok(())
            }
        },
        ResponseValueSelector::LatestTurnOutputScalarFromEnd { reverse_ordinal, value_type } => {
            if reverse_ordinal >= 64 || value_type == AtomValueType::Collection {
                Err("invalid_latest_turn_output_scalar_from_end_selector")
            } else {
                Ok(())
            }
        },
        ResponseValueSelector::CommandOutputBody => Ok(()),
        ResponseValueSelector::RequestLastToken => Ok(()),
        ResponseValueSelector::RequestUniqueLiteral => Ok(()),
    }
}

fn prefix_refused_exec(prefix: &str) -> (r: bool)
    ensures
        r == prefix_refused(prefix@),
{
    let n = byte_len(prefix);
    n == 0 || n > 128 || any_ascii_control(prefix.as_bytes()) || selector_text_looks_private(prefix)
}

fn field_refused_exec(field: &str) -> (r: bool)
    ensures
        r == field_refused(field@),
{
    !is_identifier_text(field) || byte_len(field) > 64 || selector_text_looks_private(field)
}

/// Checks a selector against the bounds of its kind.
pub fn validate_selector(s: &ResponseValueSelector) -> (r: Result<(), &'static str>)
    ensures
        r == spec_validate_selector(*s),
{
    match s {
        ResponseValueSelector::ContinuationHandle { value_type } => {
            if *value_type == AtomValueType::Identifier || *value_type == AtomValueType::String {
                Ok(())
            } else {
                Err("invalid_continuation_handle_type")
            }
        },
        ResponseValueSelector::UniqueScalar { .. } => Ok(()),
        ResponseValueSelector::UniqueTurnScalar { .. } => Ok(()),
        ResponseValueSelector::RequestReferencedJsonField { .. } => Ok(()),
        ResponseValueSelector::RequestReferencedJsonFieldOrdinal { ordinal, .. } => {
            if *ordinal <= 15 { Ok(()) } else { Err("request_referenced_ordinal_budget") }
        },
        ResponseValueSelector::JsonScalarOrdinal { ordinal, .. } => {
            if *ordinal < 64 { Ok(()) } else { Err("invalid_selector_scalar_ordinal") }
        },
        ResponseValueSelector::ContentLinePrefix { prefix, .. } => {
            if prefix_refused_exec(prefix.as_str()) { Err("invalid_selector_prefix") } else { Ok(()) }
        },
        ResponseValueSelector::JsonField { field, .. } => {
            if field_refused_exec(field.as_str()) { Err("invalid_selector_field") } else { Ok(()) }
        },
        ResponseValueSelector::UniqueTurnJsonField { field, .. } => {
            if field_refused_exec(field.as_str()) { Err("invalid_selector_field") } else { Ok(()) }
        },
        ResponseValueSelector::UniqueActiveTurnJsonField { field, .. } => {
            if field_refused_exec(field.as_str()) { Err("invalid_selector_field") } else { Ok(()) }
        },
        ResponseValueSelector::TurnOutputLine { output_ordinal, line_index, value_type } => {
            if *output_ordinal == 0 || *output_ordinal > 64 || *line_index > 255
                || *value_type != AtomValueType::String {
                Err("invalid_turn_output_line_selector")
            } else {
                Ok(())
            }
        },
        ResponseValueSelector::TurnOutputScalarOrdinal { output_ordinal, scalar_ordinal, value_type } => {
            if *output_ordinal == 0 || *output_ordinal > 64 || *scalar_ordinal >= 64
                || *value_type == AtomValueType::Collection {
                Err("invalid_turn_output_scalar_ordinal_selector")
            } else {
                Ok(())
            }
        },
        ResponseValueSelector::LatestTurnOutputLine { line_index, value_type } => {
            if *line_index > 255 || *value_type != AtomValueType::String {
                Err("invalid_latest_turn_output_line_selector")
            } else {
                Ok(())
            }
        },
        ResponseValueSelector::LatestTurnOutputScalarOrdinal { scalar_ordinal, value_type } => {
            if *scalar_ordinal >= 64 || *value_type == AtomValueType::Collection {
                Err("invalid_latest_turn_output_scalar_ordinal_selector")
            } else {
                Ok(())
            }
        },
        ResponseValueSelector::LatestTurnOutputScalarFromEnd { reverse_ordinal, value_type } => {
            if *reverse_ordinal >= 64 || *value_type == AtomValueType::Collection {
                Err("invalid_latest_turn_output_scalar_from_end_selector")
            } else {
                Ok(())
            }
        },
        ResponseValueSelector::CommandOutputBody => Ok(()),
        ResponseValueSelector::RequestLastToken => Ok(()),
        ResponseValueSelector::RequestUniqueLiteral => Ok(()),
    }
}

} // verus!
